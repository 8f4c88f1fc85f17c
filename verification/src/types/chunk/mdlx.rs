use crate::encoder::error::Error as EncodeError;
use crate::parser::error::MdxParseError;
use crate::parser::primitives::{Parsed, Parser};
use crate::types::chunk::{
    all_known, chunk_reparses, encode_error_slots, encode_slots, framed_as,
    lemma_contains_front, lemma_span_header, lemma_header_prefix, lemma_subchunks_parse_wire,
    opt_chunk_faithful, replay, replay_error, ReparsableChunk, opt_seq, order_of,
    parse_subchunks, record_tag, slot_filled, slots_faithful, span_announced,
    spec_parse_subchunks, wire_slots, Chunk, LosslessChunk, LosslessChunks, OrderedSlots,
    Replay, Subchunks,
};
use crate::types::chunk::atch::{Atch, AtchModel};
use crate::types::chunk::bone::{BoneChunk, BoneChunkModel};
use crate::types::chunk::bpos::{Bpos, BposModel};
use crate::types::chunk::cams::{Cams, CamsModel};
use crate::types::chunk::clid::{Clid, ClidModel};
use crate::types::chunk::corn::{Corn, CornModel};
use crate::types::chunk::evts::{Evts, EvtsModel};
use crate::types::chunk::fafx::{Fafx, FafxModel};
use crate::types::chunk::geoa::{Geoa, GeoaModel};
use crate::types::chunk::geos::{Geos, GeosModel};
use crate::types::chunk::glbs::{Glbs, GlbsModel};
use crate::types::chunk::help::{Help, HelpModel};
use crate::types::chunk::lite::{Lite, LiteModel};
use crate::types::chunk::modl::{Modl, ModlModel};
use crate::types::chunk::mtls::{Mtls, MtlsModel};
use crate::types::chunk::pivt::{Pivt, PivtModel};
use crate::types::chunk::pre2::{Pre2, Pre2Model};
use crate::types::chunk::prem::{Prem, PremModel};
use crate::types::chunk::ribb::{Ribb, RibbModel};
use crate::types::chunk::seqs::{Seqs, SeqsModel};
use crate::types::chunk::snds::{Snds, SndsModel};
use crate::types::chunk::texs::{Texs, TexsModel};
use crate::types::chunk::txan::{Txan, TxanModel};
use crate::types::chunk::utils::{
    lemma_expect_tag, lemma_expect_tag_wire, spec_expect_tag, Header, Tag,
};
use crate::types::chunk::vers::{Vers, VersModel};
use crate::types::materialize::{
    encode_error_opt, encode_opt, lemma_append_assoc, opt_model, wire_opt, Materialized,
};
use vstd::prelude::*;

verus! {

/// Root chunk of the hierarchy.
#[derive(Debug, Clone, PartialEq)]
pub struct Mdlx {
    pub vers: Option<Vers>,
    pub modl: Option<Modl>,
    pub seqs: Option<Seqs>,
    pub glbs: Option<Glbs>,
    pub texs: Option<Texs>,
    pub snds: Option<Snds>,
    pub mtls: Option<Mtls>,
    pub txan: Option<Txan>,
    pub geos: Option<Geos>,
    pub geoa: Option<Geoa>,
    pub bone: Option<BoneChunk>,
    pub lite: Option<Lite>,
    pub help: Option<Help>,
    pub atch: Option<Atch>,
    pub pivt: Option<Pivt>,
    pub prem: Option<Prem>,
    pub pre2: Option<Pre2>,
    pub ribb: Option<Ribb>,
    pub evts: Option<Evts>,
    pub cams: Option<Cams>,
    pub clid: Option<Clid>,
    pub bpos: Option<Bpos>,
    pub fafx: Option<Fafx>,
    pub corn: Option<Corn>,
    /// Controls the order of the chunks when encoding. If the field is empty,
    /// the order is the one of the fields here. Otherwise only the chunks with
    /// the tags of this vector are written down, in its order. It is filled
    /// while parsing, so that a file with its chunks in another order is
    /// written back as it was.
    pub ordered: Option<Vec<Tag>>,
}

/// What a value of [`Mdlx`] stands for in specifications.
pub struct MdlxModel {
    pub vers: Option<VersModel>,
    pub modl: Option<ModlModel>,
    pub seqs: Option<SeqsModel>,
    pub glbs: Option<GlbsModel>,
    pub texs: Option<TexsModel>,
    pub snds: Option<SndsModel>,
    pub mtls: Option<MtlsModel>,
    pub txan: Option<TxanModel>,
    pub geos: Option<GeosModel>,
    pub geoa: Option<GeoaModel>,
    pub bone: Option<BoneChunkModel>,
    pub lite: Option<LiteModel>,
    pub help: Option<HelpModel>,
    pub atch: Option<AtchModel>,
    pub pivt: Option<PivtModel>,
    pub prem: Option<PremModel>,
    pub pre2: Option<Pre2Model>,
    pub ribb: Option<RibbModel>,
    pub evts: Option<EvtsModel>,
    pub cams: Option<CamsModel>,
    pub clid: Option<ClidModel>,
    pub bpos: Option<BposModel>,
    pub fafx: Option<FafxModel>,
    pub corn: Option<CornModel>,
    pub ordered: Option<Seq<Tag>>,
}

impl MdlxModel {
    /// The model with no chunk and the given recorded order.
    pub open spec fn empty(ordered: Option<Seq<Tag>>) -> MdlxModel {
        MdlxModel {
            vers: None,
            modl: None,
            seqs: None,
            glbs: None,
            texs: None,
            snds: None,
            mtls: None,
            txan: None,
            geos: None,
            geoa: None,
            bone: None,
            lite: None,
            help: None,
            atch: None,
            pivt: None,
            prem: None,
            pre2: None,
            ribb: None,
            evts: None,
            cams: None,
            clid: None,
            bpos: None,
            fafx: None,
            corn: None,
            ordered: ordered,
        }
    }
}

/// The version in effect for the next chunk: the one of the version chunk if
/// one was read, else the one that was handed in.
pub open spec fn spec_version(m: MdlxModel, version: Option<u32>) -> Option<u32> {
    match m.vers {
        Some(vers) => Some(vers.version),
        None => version,
    }
}

impl Mdlx {
    /// A model with no chunk and no recorded order.
    pub fn new() -> (r: Mdlx)
        ensures
            r.slots_model() == MdlxModel::empty(None),
    {
        Mdlx {
            vers: None,
            modl: None,
            seqs: None,
            glbs: None,
            texs: None,
            snds: None,
            mtls: None,
            txan: None,
            geos: None,
            geoa: None,
            bone: None,
            lite: None,
            help: None,
            atch: None,
            pivt: None,
            prem: None,
            pre2: None,
            ribb: None,
            evts: None,
            cams: None,
            clid: None,
            bpos: None,
            fafx: None,
            corn: None,
            ordered: None,
        }
    }
}

impl Chunk for Mdlx {
    open spec fn spec_tag() -> Tag {
        Tag([0x4D, 0x44, 0x4C, 0x58])
    }

    fn tag() -> (t: Tag) {
        let t = Tag([0x4D, 0x44, 0x4C, 0x58]);
        assert(t.0 =~= Self::spec_tag().0);
        t
    }
}

impl OrderedSlots for MdlxModel {
    open spec fn canonical() -> Seq<Tag> {
        seq![
            Vers::spec_tag(),
            Modl::spec_tag(),
            Seqs::spec_tag(),
            Glbs::spec_tag(),
            Texs::spec_tag(),
            Snds::spec_tag(),
            Mtls::spec_tag(),
            Txan::spec_tag(),
            Geos::spec_tag(),
            Geoa::spec_tag(),
            BoneChunk::spec_tag(),
            Lite::spec_tag(),
            Help::spec_tag(),
            Atch::spec_tag(),
            Pivt::spec_tag(),
            Prem::spec_tag(),
            Pre2::spec_tag(),
            Ribb::spec_tag(),
            Evts::spec_tag(),
            Cams::spec_tag(),
            Clid::spec_tag(),
            Bpos::spec_tag(),
            Fafx::spec_tag(),
            Corn::spec_tag(),
        ]
    }

    open spec fn recorded(self) -> bool {
        self.ordered is Some
    }

    open spec fn order(self) -> Seq<Tag> {
        order_of(self.ordered)
    }

    open spec fn slot_wire(self, tag: Tag) -> Seq<u8> {
        if tag == Vers::spec_tag() {
            wire_opt::<Vers>(self.vers)
        } else if tag == Modl::spec_tag() {
            wire_opt::<Modl>(self.modl)
        } else if tag == Seqs::spec_tag() {
            wire_opt::<Seqs>(self.seqs)
        } else if tag == Glbs::spec_tag() {
            wire_opt::<Glbs>(self.glbs)
        } else if tag == Texs::spec_tag() {
            wire_opt::<Texs>(self.texs)
        } else if tag == Snds::spec_tag() {
            wire_opt::<Snds>(self.snds)
        } else if tag == Mtls::spec_tag() {
            wire_opt::<Mtls>(self.mtls)
        } else if tag == Txan::spec_tag() {
            wire_opt::<Txan>(self.txan)
        } else if tag == Geos::spec_tag() {
            wire_opt::<Geos>(self.geos)
        } else if tag == Geoa::spec_tag() {
            wire_opt::<Geoa>(self.geoa)
        } else if tag == BoneChunk::spec_tag() {
            wire_opt::<BoneChunk>(self.bone)
        } else if tag == Lite::spec_tag() {
            wire_opt::<Lite>(self.lite)
        } else if tag == Help::spec_tag() {
            wire_opt::<Help>(self.help)
        } else if tag == Atch::spec_tag() {
            wire_opt::<Atch>(self.atch)
        } else if tag == Pivt::spec_tag() {
            wire_opt::<Pivt>(self.pivt)
        } else if tag == Prem::spec_tag() {
            wire_opt::<Prem>(self.prem)
        } else if tag == Pre2::spec_tag() {
            wire_opt::<Pre2>(self.pre2)
        } else if tag == Ribb::spec_tag() {
            wire_opt::<Ribb>(self.ribb)
        } else if tag == Evts::spec_tag() {
            wire_opt::<Evts>(self.evts)
        } else if tag == Cams::spec_tag() {
            wire_opt::<Cams>(self.cams)
        } else if tag == Clid::spec_tag() {
            wire_opt::<Clid>(self.clid)
        } else if tag == Bpos::spec_tag() {
            wire_opt::<Bpos>(self.bpos)
        } else if tag == Fafx::spec_tag() {
            wire_opt::<Fafx>(self.fafx)
        } else if tag == Corn::spec_tag() {
            wire_opt::<Corn>(self.corn)
        } else {
            Seq::empty()
        }
    }

    open spec fn slot_error(self, tag: Tag) -> Option<EncodeError> {
        if tag == Vers::spec_tag() {
            encode_error_opt::<Vers>(self.vers)
        } else if tag == Modl::spec_tag() {
            encode_error_opt::<Modl>(self.modl)
        } else if tag == Seqs::spec_tag() {
            encode_error_opt::<Seqs>(self.seqs)
        } else if tag == Glbs::spec_tag() {
            encode_error_opt::<Glbs>(self.glbs)
        } else if tag == Texs::spec_tag() {
            encode_error_opt::<Texs>(self.texs)
        } else if tag == Snds::spec_tag() {
            encode_error_opt::<Snds>(self.snds)
        } else if tag == Mtls::spec_tag() {
            encode_error_opt::<Mtls>(self.mtls)
        } else if tag == Txan::spec_tag() {
            encode_error_opt::<Txan>(self.txan)
        } else if tag == Geos::spec_tag() {
            encode_error_opt::<Geos>(self.geos)
        } else if tag == Geoa::spec_tag() {
            encode_error_opt::<Geoa>(self.geoa)
        } else if tag == BoneChunk::spec_tag() {
            encode_error_opt::<BoneChunk>(self.bone)
        } else if tag == Lite::spec_tag() {
            encode_error_opt::<Lite>(self.lite)
        } else if tag == Help::spec_tag() {
            encode_error_opt::<Help>(self.help)
        } else if tag == Atch::spec_tag() {
            encode_error_opt::<Atch>(self.atch)
        } else if tag == Pivt::spec_tag() {
            encode_error_opt::<Pivt>(self.pivt)
        } else if tag == Prem::spec_tag() {
            encode_error_opt::<Prem>(self.prem)
        } else if tag == Pre2::spec_tag() {
            encode_error_opt::<Pre2>(self.pre2)
        } else if tag == Ribb::spec_tag() {
            encode_error_opt::<Ribb>(self.ribb)
        } else if tag == Evts::spec_tag() {
            encode_error_opt::<Evts>(self.evts)
        } else if tag == Cams::spec_tag() {
            encode_error_opt::<Cams>(self.cams)
        } else if tag == Clid::spec_tag() {
            encode_error_opt::<Clid>(self.clid)
        } else if tag == Bpos::spec_tag() {
            encode_error_opt::<Bpos>(self.bpos)
        } else if tag == Fafx::spec_tag() {
            encode_error_opt::<Fafx>(self.fafx)
        } else if tag == Corn::spec_tag() {
            encode_error_opt::<Corn>(self.corn)
        } else {
            None
        }
    }

    open spec fn slot_faithful(self, tag: Tag) -> bool {
        if tag == Vers::spec_tag() {
            opt_chunk_faithful::<Vers>(self.vers)
        } else if tag == Modl::spec_tag() {
            opt_chunk_faithful::<Modl>(self.modl)
        } else if tag == Seqs::spec_tag() {
            opt_chunk_faithful::<Seqs>(self.seqs)
        } else if tag == Glbs::spec_tag() {
            opt_chunk_faithful::<Glbs>(self.glbs)
        } else if tag == Texs::spec_tag() {
            opt_chunk_faithful::<Texs>(self.texs)
        } else if tag == Snds::spec_tag() {
            opt_chunk_faithful::<Snds>(self.snds)
        } else if tag == Mtls::spec_tag() {
            opt_chunk_faithful::<Mtls>(self.mtls)
        } else if tag == Txan::spec_tag() {
            opt_chunk_faithful::<Txan>(self.txan)
        } else if tag == Geos::spec_tag() {
            opt_chunk_faithful::<Geos>(self.geos)
        } else if tag == Geoa::spec_tag() {
            opt_chunk_faithful::<Geoa>(self.geoa)
        } else if tag == BoneChunk::spec_tag() {
            opt_chunk_faithful::<BoneChunk>(self.bone)
        } else if tag == Lite::spec_tag() {
            opt_chunk_faithful::<Lite>(self.lite)
        } else if tag == Help::spec_tag() {
            opt_chunk_faithful::<Help>(self.help)
        } else if tag == Atch::spec_tag() {
            opt_chunk_faithful::<Atch>(self.atch)
        } else if tag == Pivt::spec_tag() {
            opt_chunk_faithful::<Pivt>(self.pivt)
        } else if tag == Prem::spec_tag() {
            opt_chunk_faithful::<Prem>(self.prem)
        } else if tag == Pre2::spec_tag() {
            opt_chunk_faithful::<Pre2>(self.pre2)
        } else if tag == Ribb::spec_tag() {
            opt_chunk_faithful::<Ribb>(self.ribb)
        } else if tag == Evts::spec_tag() {
            opt_chunk_faithful::<Evts>(self.evts)
        } else if tag == Cams::spec_tag() {
            opt_chunk_faithful::<Cams>(self.cams)
        } else if tag == Clid::spec_tag() {
            opt_chunk_faithful::<Clid>(self.clid)
        } else if tag == Bpos::spec_tag() {
            opt_chunk_faithful::<Bpos>(self.bpos)
        } else if tag == Fafx::spec_tag() {
            opt_chunk_faithful::<Fafx>(self.fafx)
        } else if tag == Corn::spec_tag() {
            opt_chunk_faithful::<Corn>(self.corn)
        } else {
            true
        }
    }

    open spec fn frame(self) -> MdlxModel {
        MdlxModel {
            vers: None,
            modl: None,
            seqs: None,
            glbs: None,
            texs: None,
            snds: None,
            mtls: None,
            txan: None,
            geos: None,
            geoa: None,
            bone: None,
            lite: None,
            help: None,
            atch: None,
            pivt: None,
            prem: None,
            pre2: None,
            ribb: None,
            evts: None,
            cams: None,
            clid: None,
            bpos: None,
            fafx: None,
            corn: None,
            ordered: None,
        }
    }
}

impl Replay for Mdlx {
    type Model = MdlxModel;

    open spec fn slots_model(&self) -> MdlxModel {
        MdlxModel {
            vers: opt_model(self.vers),
            modl: opt_model(self.modl),
            seqs: opt_model(self.seqs),
            glbs: opt_model(self.glbs),
            texs: opt_model(self.texs),
            snds: opt_model(self.snds),
            mtls: opt_model(self.mtls),
            txan: opt_model(self.txan),
            geos: opt_model(self.geos),
            geoa: opt_model(self.geoa),
            bone: opt_model(self.bone),
            lite: opt_model(self.lite),
            help: opt_model(self.help),
            atch: opt_model(self.atch),
            pivt: opt_model(self.pivt),
            prem: opt_model(self.prem),
            pre2: opt_model(self.pre2),
            ribb: opt_model(self.ribb),
            evts: opt_model(self.evts),
            cams: opt_model(self.cams),
            clid: opt_model(self.clid),
            bpos: opt_model(self.bpos),
            fafx: opt_model(self.fafx),
            corn: opt_model(self.corn),
            ordered: opt_seq(self.ordered),
        }
    }

    fn encode_slot(&self, tag: Tag, output: &mut Vec<u8>) -> (r: Result<(), EncodeError>) {
        if tag.same_as(&Vers::tag()) {
            assert(self.slots_model().slot_error(tag) == encode_error_opt::<Vers>(
                opt_model(self.vers),
            ));
            assert(self.slots_model().slot_wire(tag) == wire_opt::<Vers>(opt_model(self.vers)));
            encode_opt(&self.vers, output)
        } else if tag.same_as(&Modl::tag()) {
            assert(self.slots_model().slot_error(tag) == encode_error_opt::<Modl>(
                opt_model(self.modl),
            ));
            assert(self.slots_model().slot_wire(tag) == wire_opt::<Modl>(opt_model(self.modl)));
            encode_opt(&self.modl, output)
        } else if tag.same_as(&Seqs::tag()) {
            assert(self.slots_model().slot_error(tag) == encode_error_opt::<Seqs>(
                opt_model(self.seqs),
            ));
            assert(self.slots_model().slot_wire(tag) == wire_opt::<Seqs>(opt_model(self.seqs)));
            encode_opt(&self.seqs, output)
        } else if tag.same_as(&Glbs::tag()) {
            assert(self.slots_model().slot_error(tag) == encode_error_opt::<Glbs>(
                opt_model(self.glbs),
            ));
            assert(self.slots_model().slot_wire(tag) == wire_opt::<Glbs>(opt_model(self.glbs)));
            encode_opt(&self.glbs, output)
        } else if tag.same_as(&Texs::tag()) {
            assert(self.slots_model().slot_error(tag) == encode_error_opt::<Texs>(
                opt_model(self.texs),
            ));
            assert(self.slots_model().slot_wire(tag) == wire_opt::<Texs>(opt_model(self.texs)));
            encode_opt(&self.texs, output)
        } else if tag.same_as(&Snds::tag()) {
            assert(self.slots_model().slot_error(tag) == encode_error_opt::<Snds>(
                opt_model(self.snds),
            ));
            assert(self.slots_model().slot_wire(tag) == wire_opt::<Snds>(opt_model(self.snds)));
            encode_opt(&self.snds, output)
        } else if tag.same_as(&Mtls::tag()) {
            assert(self.slots_model().slot_error(tag) == encode_error_opt::<Mtls>(
                opt_model(self.mtls),
            ));
            assert(self.slots_model().slot_wire(tag) == wire_opt::<Mtls>(opt_model(self.mtls)));
            encode_opt(&self.mtls, output)
        } else if tag.same_as(&Txan::tag()) {
            assert(self.slots_model().slot_error(tag) == encode_error_opt::<Txan>(
                opt_model(self.txan),
            ));
            assert(self.slots_model().slot_wire(tag) == wire_opt::<Txan>(opt_model(self.txan)));
            encode_opt(&self.txan, output)
        } else if tag.same_as(&Geos::tag()) {
            assert(self.slots_model().slot_error(tag) == encode_error_opt::<Geos>(
                opt_model(self.geos),
            ));
            assert(self.slots_model().slot_wire(tag) == wire_opt::<Geos>(opt_model(self.geos)));
            encode_opt(&self.geos, output)
        } else if tag.same_as(&Geoa::tag()) {
            assert(self.slots_model().slot_error(tag) == encode_error_opt::<Geoa>(
                opt_model(self.geoa),
            ));
            assert(self.slots_model().slot_wire(tag) == wire_opt::<Geoa>(opt_model(self.geoa)));
            encode_opt(&self.geoa, output)
        } else if tag.same_as(&BoneChunk::tag()) {
            assert(self.slots_model().slot_error(tag) == encode_error_opt::<BoneChunk>(
                opt_model(self.bone),
            ));
            assert(self.slots_model().slot_wire(tag) == wire_opt::<BoneChunk>(opt_model(self.bone)));
            encode_opt(&self.bone, output)
        } else if tag.same_as(&Lite::tag()) {
            assert(self.slots_model().slot_error(tag) == encode_error_opt::<Lite>(
                opt_model(self.lite),
            ));
            assert(self.slots_model().slot_wire(tag) == wire_opt::<Lite>(opt_model(self.lite)));
            encode_opt(&self.lite, output)
        } else if tag.same_as(&Help::tag()) {
            assert(self.slots_model().slot_error(tag) == encode_error_opt::<Help>(
                opt_model(self.help),
            ));
            assert(self.slots_model().slot_wire(tag) == wire_opt::<Help>(opt_model(self.help)));
            encode_opt(&self.help, output)
        } else if tag.same_as(&Atch::tag()) {
            assert(self.slots_model().slot_error(tag) == encode_error_opt::<Atch>(
                opt_model(self.atch),
            ));
            assert(self.slots_model().slot_wire(tag) == wire_opt::<Atch>(opt_model(self.atch)));
            encode_opt(&self.atch, output)
        } else if tag.same_as(&Pivt::tag()) {
            assert(self.slots_model().slot_error(tag) == encode_error_opt::<Pivt>(
                opt_model(self.pivt),
            ));
            assert(self.slots_model().slot_wire(tag) == wire_opt::<Pivt>(opt_model(self.pivt)));
            encode_opt(&self.pivt, output)
        } else if tag.same_as(&Prem::tag()) {
            assert(self.slots_model().slot_error(tag) == encode_error_opt::<Prem>(
                opt_model(self.prem),
            ));
            assert(self.slots_model().slot_wire(tag) == wire_opt::<Prem>(opt_model(self.prem)));
            encode_opt(&self.prem, output)
        } else if tag.same_as(&Pre2::tag()) {
            assert(self.slots_model().slot_error(tag) == encode_error_opt::<Pre2>(
                opt_model(self.pre2),
            ));
            assert(self.slots_model().slot_wire(tag) == wire_opt::<Pre2>(opt_model(self.pre2)));
            encode_opt(&self.pre2, output)
        } else if tag.same_as(&Ribb::tag()) {
            assert(self.slots_model().slot_error(tag) == encode_error_opt::<Ribb>(
                opt_model(self.ribb),
            ));
            assert(self.slots_model().slot_wire(tag) == wire_opt::<Ribb>(opt_model(self.ribb)));
            encode_opt(&self.ribb, output)
        } else if tag.same_as(&Evts::tag()) {
            assert(self.slots_model().slot_error(tag) == encode_error_opt::<Evts>(
                opt_model(self.evts),
            ));
            assert(self.slots_model().slot_wire(tag) == wire_opt::<Evts>(opt_model(self.evts)));
            encode_opt(&self.evts, output)
        } else if tag.same_as(&Cams::tag()) {
            assert(self.slots_model().slot_error(tag) == encode_error_opt::<Cams>(
                opt_model(self.cams),
            ));
            assert(self.slots_model().slot_wire(tag) == wire_opt::<Cams>(opt_model(self.cams)));
            encode_opt(&self.cams, output)
        } else if tag.same_as(&Clid::tag()) {
            assert(self.slots_model().slot_error(tag) == encode_error_opt::<Clid>(
                opt_model(self.clid),
            ));
            assert(self.slots_model().slot_wire(tag) == wire_opt::<Clid>(opt_model(self.clid)));
            encode_opt(&self.clid, output)
        } else if tag.same_as(&Bpos::tag()) {
            assert(self.slots_model().slot_error(tag) == encode_error_opt::<Bpos>(
                opt_model(self.bpos),
            ));
            assert(self.slots_model().slot_wire(tag) == wire_opt::<Bpos>(opt_model(self.bpos)));
            encode_opt(&self.bpos, output)
        } else if tag.same_as(&Fafx::tag()) {
            assert(self.slots_model().slot_error(tag) == encode_error_opt::<Fafx>(
                opt_model(self.fafx),
            ));
            assert(self.slots_model().slot_wire(tag) == wire_opt::<Fafx>(opt_model(self.fafx)));
            encode_opt(&self.fafx, output)
        } else if tag.same_as(&Corn::tag()) {
            assert(self.slots_model().slot_error(tag) == encode_error_opt::<Corn>(
                opt_model(self.corn),
            ));
            assert(self.slots_model().slot_wire(tag) == wire_opt::<Corn>(opt_model(self.corn)));
            encode_opt(&self.corn, output)
        } else {
            assert(self.slots_model().slot_error(tag) is None);
            assert(output@ =~= old(output)@ + self.slots_model().slot_wire(tag));
            Ok(())
        }
    }
}

impl Subchunks for Mdlx {
    open spec fn spec_chunk(m: MdlxModel, version: Option<u32>, header: Header, span: Seq<u8>) -> Parsed<
        MdlxModel,
    > {
        let v = spec_version(m, version);
        if header.tag == Vers::spec_tag() {
            match Vers::spec_parse(v, span) {
                Ok((rest, chunk)) => Ok(
                    (
                        rest,
                        MdlxModel {
                            vers: Some(chunk),
                            modl: m.modl,
                            seqs: m.seqs,
                            glbs: m.glbs,
                            texs: m.texs,
                            snds: m.snds,
                            mtls: m.mtls,
                            txan: m.txan,
                            geos: m.geos,
                            geoa: m.geoa,
                            bone: m.bone,
                            lite: m.lite,
                            help: m.help,
                            atch: m.atch,
                            pivt: m.pivt,
                            prem: m.prem,
                            pre2: m.pre2,
                            ribb: m.ribb,
                            evts: m.evts,
                            cams: m.cams,
                            clid: m.clid,
                            bpos: m.bpos,
                            fafx: m.fafx,
                            corn: m.corn,
                            ordered: Some(m.order().push(header.tag)),
                        },
                    ),
                ),
                Err(e) => Err(e),
            }
        } else if header.tag == Modl::spec_tag() {
            match Modl::spec_parse(v, span) {
                Ok((rest, chunk)) => Ok(
                    (
                        rest,
                        MdlxModel {
                            vers: m.vers,
                            modl: Some(chunk),
                            seqs: m.seqs,
                            glbs: m.glbs,
                            texs: m.texs,
                            snds: m.snds,
                            mtls: m.mtls,
                            txan: m.txan,
                            geos: m.geos,
                            geoa: m.geoa,
                            bone: m.bone,
                            lite: m.lite,
                            help: m.help,
                            atch: m.atch,
                            pivt: m.pivt,
                            prem: m.prem,
                            pre2: m.pre2,
                            ribb: m.ribb,
                            evts: m.evts,
                            cams: m.cams,
                            clid: m.clid,
                            bpos: m.bpos,
                            fafx: m.fafx,
                            corn: m.corn,
                            ordered: Some(m.order().push(header.tag)),
                        },
                    ),
                ),
                Err(e) => Err(e),
            }
        } else if header.tag == Seqs::spec_tag() {
            match Seqs::spec_parse(v, span) {
                Ok((rest, chunk)) => Ok(
                    (
                        rest,
                        MdlxModel {
                            vers: m.vers,
                            modl: m.modl,
                            seqs: Some(chunk),
                            glbs: m.glbs,
                            texs: m.texs,
                            snds: m.snds,
                            mtls: m.mtls,
                            txan: m.txan,
                            geos: m.geos,
                            geoa: m.geoa,
                            bone: m.bone,
                            lite: m.lite,
                            help: m.help,
                            atch: m.atch,
                            pivt: m.pivt,
                            prem: m.prem,
                            pre2: m.pre2,
                            ribb: m.ribb,
                            evts: m.evts,
                            cams: m.cams,
                            clid: m.clid,
                            bpos: m.bpos,
                            fafx: m.fafx,
                            corn: m.corn,
                            ordered: Some(m.order().push(header.tag)),
                        },
                    ),
                ),
                Err(e) => Err(e),
            }
        } else if header.tag == Glbs::spec_tag() {
            match Glbs::spec_parse(v, span) {
                Ok((rest, chunk)) => Ok(
                    (
                        rest,
                        MdlxModel {
                            vers: m.vers,
                            modl: m.modl,
                            seqs: m.seqs,
                            glbs: Some(chunk),
                            texs: m.texs,
                            snds: m.snds,
                            mtls: m.mtls,
                            txan: m.txan,
                            geos: m.geos,
                            geoa: m.geoa,
                            bone: m.bone,
                            lite: m.lite,
                            help: m.help,
                            atch: m.atch,
                            pivt: m.pivt,
                            prem: m.prem,
                            pre2: m.pre2,
                            ribb: m.ribb,
                            evts: m.evts,
                            cams: m.cams,
                            clid: m.clid,
                            bpos: m.bpos,
                            fafx: m.fafx,
                            corn: m.corn,
                            ordered: Some(m.order().push(header.tag)),
                        },
                    ),
                ),
                Err(e) => Err(e),
            }
        } else if header.tag == Texs::spec_tag() {
            match Texs::spec_parse(v, span) {
                Ok((rest, chunk)) => Ok(
                    (
                        rest,
                        MdlxModel {
                            vers: m.vers,
                            modl: m.modl,
                            seqs: m.seqs,
                            glbs: m.glbs,
                            texs: Some(chunk),
                            snds: m.snds,
                            mtls: m.mtls,
                            txan: m.txan,
                            geos: m.geos,
                            geoa: m.geoa,
                            bone: m.bone,
                            lite: m.lite,
                            help: m.help,
                            atch: m.atch,
                            pivt: m.pivt,
                            prem: m.prem,
                            pre2: m.pre2,
                            ribb: m.ribb,
                            evts: m.evts,
                            cams: m.cams,
                            clid: m.clid,
                            bpos: m.bpos,
                            fafx: m.fafx,
                            corn: m.corn,
                            ordered: Some(m.order().push(header.tag)),
                        },
                    ),
                ),
                Err(e) => Err(e),
            }
        } else if header.tag == Snds::spec_tag() {
            match Snds::spec_parse(v, span) {
                Ok((rest, chunk)) => Ok(
                    (
                        rest,
                        MdlxModel {
                            vers: m.vers,
                            modl: m.modl,
                            seqs: m.seqs,
                            glbs: m.glbs,
                            texs: m.texs,
                            snds: Some(chunk),
                            mtls: m.mtls,
                            txan: m.txan,
                            geos: m.geos,
                            geoa: m.geoa,
                            bone: m.bone,
                            lite: m.lite,
                            help: m.help,
                            atch: m.atch,
                            pivt: m.pivt,
                            prem: m.prem,
                            pre2: m.pre2,
                            ribb: m.ribb,
                            evts: m.evts,
                            cams: m.cams,
                            clid: m.clid,
                            bpos: m.bpos,
                            fafx: m.fafx,
                            corn: m.corn,
                            ordered: Some(m.order().push(header.tag)),
                        },
                    ),
                ),
                Err(e) => Err(e),
            }
        } else if header.tag == Mtls::spec_tag() {
            match Mtls::spec_parse(v, span) {
                Ok((rest, chunk)) => Ok(
                    (
                        rest,
                        MdlxModel {
                            vers: m.vers,
                            modl: m.modl,
                            seqs: m.seqs,
                            glbs: m.glbs,
                            texs: m.texs,
                            snds: m.snds,
                            mtls: Some(chunk),
                            txan: m.txan,
                            geos: m.geos,
                            geoa: m.geoa,
                            bone: m.bone,
                            lite: m.lite,
                            help: m.help,
                            atch: m.atch,
                            pivt: m.pivt,
                            prem: m.prem,
                            pre2: m.pre2,
                            ribb: m.ribb,
                            evts: m.evts,
                            cams: m.cams,
                            clid: m.clid,
                            bpos: m.bpos,
                            fafx: m.fafx,
                            corn: m.corn,
                            ordered: Some(m.order().push(header.tag)),
                        },
                    ),
                ),
                Err(e) => Err(e),
            }
        } else if header.tag == Txan::spec_tag() {
            match Txan::spec_parse(v, span) {
                Ok((rest, chunk)) => Ok(
                    (
                        rest,
                        MdlxModel {
                            vers: m.vers,
                            modl: m.modl,
                            seqs: m.seqs,
                            glbs: m.glbs,
                            texs: m.texs,
                            snds: m.snds,
                            mtls: m.mtls,
                            txan: Some(chunk),
                            geos: m.geos,
                            geoa: m.geoa,
                            bone: m.bone,
                            lite: m.lite,
                            help: m.help,
                            atch: m.atch,
                            pivt: m.pivt,
                            prem: m.prem,
                            pre2: m.pre2,
                            ribb: m.ribb,
                            evts: m.evts,
                            cams: m.cams,
                            clid: m.clid,
                            bpos: m.bpos,
                            fafx: m.fafx,
                            corn: m.corn,
                            ordered: Some(m.order().push(header.tag)),
                        },
                    ),
                ),
                Err(e) => Err(e),
            }
        } else if header.tag == Geos::spec_tag() {
            match Geos::spec_parse(v, span) {
                Ok((rest, chunk)) => Ok(
                    (
                        rest,
                        MdlxModel {
                            vers: m.vers,
                            modl: m.modl,
                            seqs: m.seqs,
                            glbs: m.glbs,
                            texs: m.texs,
                            snds: m.snds,
                            mtls: m.mtls,
                            txan: m.txan,
                            geos: Some(chunk),
                            geoa: m.geoa,
                            bone: m.bone,
                            lite: m.lite,
                            help: m.help,
                            atch: m.atch,
                            pivt: m.pivt,
                            prem: m.prem,
                            pre2: m.pre2,
                            ribb: m.ribb,
                            evts: m.evts,
                            cams: m.cams,
                            clid: m.clid,
                            bpos: m.bpos,
                            fafx: m.fafx,
                            corn: m.corn,
                            ordered: Some(m.order().push(header.tag)),
                        },
                    ),
                ),
                Err(e) => Err(e),
            }
        } else if header.tag == Geoa::spec_tag() {
            match Geoa::spec_parse(v, span) {
                Ok((rest, chunk)) => Ok(
                    (
                        rest,
                        MdlxModel {
                            vers: m.vers,
                            modl: m.modl,
                            seqs: m.seqs,
                            glbs: m.glbs,
                            texs: m.texs,
                            snds: m.snds,
                            mtls: m.mtls,
                            txan: m.txan,
                            geos: m.geos,
                            geoa: Some(chunk),
                            bone: m.bone,
                            lite: m.lite,
                            help: m.help,
                            atch: m.atch,
                            pivt: m.pivt,
                            prem: m.prem,
                            pre2: m.pre2,
                            ribb: m.ribb,
                            evts: m.evts,
                            cams: m.cams,
                            clid: m.clid,
                            bpos: m.bpos,
                            fafx: m.fafx,
                            corn: m.corn,
                            ordered: Some(m.order().push(header.tag)),
                        },
                    ),
                ),
                Err(e) => Err(e),
            }
        } else if header.tag == BoneChunk::spec_tag() {
            match BoneChunk::spec_parse(v, span) {
                Ok((rest, chunk)) => Ok(
                    (
                        rest,
                        MdlxModel {
                            vers: m.vers,
                            modl: m.modl,
                            seqs: m.seqs,
                            glbs: m.glbs,
                            texs: m.texs,
                            snds: m.snds,
                            mtls: m.mtls,
                            txan: m.txan,
                            geos: m.geos,
                            geoa: m.geoa,
                            bone: Some(chunk),
                            lite: m.lite,
                            help: m.help,
                            atch: m.atch,
                            pivt: m.pivt,
                            prem: m.prem,
                            pre2: m.pre2,
                            ribb: m.ribb,
                            evts: m.evts,
                            cams: m.cams,
                            clid: m.clid,
                            bpos: m.bpos,
                            fafx: m.fafx,
                            corn: m.corn,
                            ordered: Some(m.order().push(header.tag)),
                        },
                    ),
                ),
                Err(e) => Err(e),
            }
        } else if header.tag == Lite::spec_tag() {
            match Lite::spec_parse(v, span) {
                Ok((rest, chunk)) => Ok(
                    (
                        rest,
                        MdlxModel {
                            vers: m.vers,
                            modl: m.modl,
                            seqs: m.seqs,
                            glbs: m.glbs,
                            texs: m.texs,
                            snds: m.snds,
                            mtls: m.mtls,
                            txan: m.txan,
                            geos: m.geos,
                            geoa: m.geoa,
                            bone: m.bone,
                            lite: Some(chunk),
                            help: m.help,
                            atch: m.atch,
                            pivt: m.pivt,
                            prem: m.prem,
                            pre2: m.pre2,
                            ribb: m.ribb,
                            evts: m.evts,
                            cams: m.cams,
                            clid: m.clid,
                            bpos: m.bpos,
                            fafx: m.fafx,
                            corn: m.corn,
                            ordered: Some(m.order().push(header.tag)),
                        },
                    ),
                ),
                Err(e) => Err(e),
            }
        } else if header.tag == Help::spec_tag() {
            match Help::spec_parse(v, span) {
                Ok((rest, chunk)) => Ok(
                    (
                        rest,
                        MdlxModel {
                            vers: m.vers,
                            modl: m.modl,
                            seqs: m.seqs,
                            glbs: m.glbs,
                            texs: m.texs,
                            snds: m.snds,
                            mtls: m.mtls,
                            txan: m.txan,
                            geos: m.geos,
                            geoa: m.geoa,
                            bone: m.bone,
                            lite: m.lite,
                            help: Some(chunk),
                            atch: m.atch,
                            pivt: m.pivt,
                            prem: m.prem,
                            pre2: m.pre2,
                            ribb: m.ribb,
                            evts: m.evts,
                            cams: m.cams,
                            clid: m.clid,
                            bpos: m.bpos,
                            fafx: m.fafx,
                            corn: m.corn,
                            ordered: Some(m.order().push(header.tag)),
                        },
                    ),
                ),
                Err(e) => Err(e),
            }
        } else if header.tag == Atch::spec_tag() {
            match Atch::spec_parse(v, span) {
                Ok((rest, chunk)) => Ok(
                    (
                        rest,
                        MdlxModel {
                            vers: m.vers,
                            modl: m.modl,
                            seqs: m.seqs,
                            glbs: m.glbs,
                            texs: m.texs,
                            snds: m.snds,
                            mtls: m.mtls,
                            txan: m.txan,
                            geos: m.geos,
                            geoa: m.geoa,
                            bone: m.bone,
                            lite: m.lite,
                            help: m.help,
                            atch: Some(chunk),
                            pivt: m.pivt,
                            prem: m.prem,
                            pre2: m.pre2,
                            ribb: m.ribb,
                            evts: m.evts,
                            cams: m.cams,
                            clid: m.clid,
                            bpos: m.bpos,
                            fafx: m.fafx,
                            corn: m.corn,
                            ordered: Some(m.order().push(header.tag)),
                        },
                    ),
                ),
                Err(e) => Err(e),
            }
        } else if header.tag == Pivt::spec_tag() {
            match Pivt::spec_parse(v, span) {
                Ok((rest, chunk)) => Ok(
                    (
                        rest,
                        MdlxModel {
                            vers: m.vers,
                            modl: m.modl,
                            seqs: m.seqs,
                            glbs: m.glbs,
                            texs: m.texs,
                            snds: m.snds,
                            mtls: m.mtls,
                            txan: m.txan,
                            geos: m.geos,
                            geoa: m.geoa,
                            bone: m.bone,
                            lite: m.lite,
                            help: m.help,
                            atch: m.atch,
                            pivt: Some(chunk),
                            prem: m.prem,
                            pre2: m.pre2,
                            ribb: m.ribb,
                            evts: m.evts,
                            cams: m.cams,
                            clid: m.clid,
                            bpos: m.bpos,
                            fafx: m.fafx,
                            corn: m.corn,
                            ordered: Some(m.order().push(header.tag)),
                        },
                    ),
                ),
                Err(e) => Err(e),
            }
        } else if header.tag == Prem::spec_tag() {
            match Prem::spec_parse(v, span) {
                Ok((rest, chunk)) => Ok(
                    (
                        rest,
                        MdlxModel {
                            vers: m.vers,
                            modl: m.modl,
                            seqs: m.seqs,
                            glbs: m.glbs,
                            texs: m.texs,
                            snds: m.snds,
                            mtls: m.mtls,
                            txan: m.txan,
                            geos: m.geos,
                            geoa: m.geoa,
                            bone: m.bone,
                            lite: m.lite,
                            help: m.help,
                            atch: m.atch,
                            pivt: m.pivt,
                            prem: Some(chunk),
                            pre2: m.pre2,
                            ribb: m.ribb,
                            evts: m.evts,
                            cams: m.cams,
                            clid: m.clid,
                            bpos: m.bpos,
                            fafx: m.fafx,
                            corn: m.corn,
                            ordered: Some(m.order().push(header.tag)),
                        },
                    ),
                ),
                Err(e) => Err(e),
            }
        } else if header.tag == Pre2::spec_tag() {
            match Pre2::spec_parse(v, span) {
                Ok((rest, chunk)) => Ok(
                    (
                        rest,
                        MdlxModel {
                            vers: m.vers,
                            modl: m.modl,
                            seqs: m.seqs,
                            glbs: m.glbs,
                            texs: m.texs,
                            snds: m.snds,
                            mtls: m.mtls,
                            txan: m.txan,
                            geos: m.geos,
                            geoa: m.geoa,
                            bone: m.bone,
                            lite: m.lite,
                            help: m.help,
                            atch: m.atch,
                            pivt: m.pivt,
                            prem: m.prem,
                            pre2: Some(chunk),
                            ribb: m.ribb,
                            evts: m.evts,
                            cams: m.cams,
                            clid: m.clid,
                            bpos: m.bpos,
                            fafx: m.fafx,
                            corn: m.corn,
                            ordered: Some(m.order().push(header.tag)),
                        },
                    ),
                ),
                Err(e) => Err(e),
            }
        } else if header.tag == Ribb::spec_tag() {
            match Ribb::spec_parse(v, span) {
                Ok((rest, chunk)) => Ok(
                    (
                        rest,
                        MdlxModel {
                            vers: m.vers,
                            modl: m.modl,
                            seqs: m.seqs,
                            glbs: m.glbs,
                            texs: m.texs,
                            snds: m.snds,
                            mtls: m.mtls,
                            txan: m.txan,
                            geos: m.geos,
                            geoa: m.geoa,
                            bone: m.bone,
                            lite: m.lite,
                            help: m.help,
                            atch: m.atch,
                            pivt: m.pivt,
                            prem: m.prem,
                            pre2: m.pre2,
                            ribb: Some(chunk),
                            evts: m.evts,
                            cams: m.cams,
                            clid: m.clid,
                            bpos: m.bpos,
                            fafx: m.fafx,
                            corn: m.corn,
                            ordered: Some(m.order().push(header.tag)),
                        },
                    ),
                ),
                Err(e) => Err(e),
            }
        } else if header.tag == Evts::spec_tag() {
            match Evts::spec_parse(v, span) {
                Ok((rest, chunk)) => Ok(
                    (
                        rest,
                        MdlxModel {
                            vers: m.vers,
                            modl: m.modl,
                            seqs: m.seqs,
                            glbs: m.glbs,
                            texs: m.texs,
                            snds: m.snds,
                            mtls: m.mtls,
                            txan: m.txan,
                            geos: m.geos,
                            geoa: m.geoa,
                            bone: m.bone,
                            lite: m.lite,
                            help: m.help,
                            atch: m.atch,
                            pivt: m.pivt,
                            prem: m.prem,
                            pre2: m.pre2,
                            ribb: m.ribb,
                            evts: Some(chunk),
                            cams: m.cams,
                            clid: m.clid,
                            bpos: m.bpos,
                            fafx: m.fafx,
                            corn: m.corn,
                            ordered: Some(m.order().push(header.tag)),
                        },
                    ),
                ),
                Err(e) => Err(e),
            }
        } else if header.tag == Cams::spec_tag() {
            match Cams::spec_parse(v, span) {
                Ok((rest, chunk)) => Ok(
                    (
                        rest,
                        MdlxModel {
                            vers: m.vers,
                            modl: m.modl,
                            seqs: m.seqs,
                            glbs: m.glbs,
                            texs: m.texs,
                            snds: m.snds,
                            mtls: m.mtls,
                            txan: m.txan,
                            geos: m.geos,
                            geoa: m.geoa,
                            bone: m.bone,
                            lite: m.lite,
                            help: m.help,
                            atch: m.atch,
                            pivt: m.pivt,
                            prem: m.prem,
                            pre2: m.pre2,
                            ribb: m.ribb,
                            evts: m.evts,
                            cams: Some(chunk),
                            clid: m.clid,
                            bpos: m.bpos,
                            fafx: m.fafx,
                            corn: m.corn,
                            ordered: Some(m.order().push(header.tag)),
                        },
                    ),
                ),
                Err(e) => Err(e),
            }
        } else if header.tag == Clid::spec_tag() {
            match Clid::spec_parse(v, span) {
                Ok((rest, chunk)) => Ok(
                    (
                        rest,
                        MdlxModel {
                            vers: m.vers,
                            modl: m.modl,
                            seqs: m.seqs,
                            glbs: m.glbs,
                            texs: m.texs,
                            snds: m.snds,
                            mtls: m.mtls,
                            txan: m.txan,
                            geos: m.geos,
                            geoa: m.geoa,
                            bone: m.bone,
                            lite: m.lite,
                            help: m.help,
                            atch: m.atch,
                            pivt: m.pivt,
                            prem: m.prem,
                            pre2: m.pre2,
                            ribb: m.ribb,
                            evts: m.evts,
                            cams: m.cams,
                            clid: Some(chunk),
                            bpos: m.bpos,
                            fafx: m.fafx,
                            corn: m.corn,
                            ordered: Some(m.order().push(header.tag)),
                        },
                    ),
                ),
                Err(e) => Err(e),
            }
        } else if header.tag == Bpos::spec_tag() {
            match Bpos::spec_parse(v, span) {
                Ok((rest, chunk)) => Ok(
                    (
                        rest,
                        MdlxModel {
                            vers: m.vers,
                            modl: m.modl,
                            seqs: m.seqs,
                            glbs: m.glbs,
                            texs: m.texs,
                            snds: m.snds,
                            mtls: m.mtls,
                            txan: m.txan,
                            geos: m.geos,
                            geoa: m.geoa,
                            bone: m.bone,
                            lite: m.lite,
                            help: m.help,
                            atch: m.atch,
                            pivt: m.pivt,
                            prem: m.prem,
                            pre2: m.pre2,
                            ribb: m.ribb,
                            evts: m.evts,
                            cams: m.cams,
                            clid: m.clid,
                            bpos: Some(chunk),
                            fafx: m.fafx,
                            corn: m.corn,
                            ordered: Some(m.order().push(header.tag)),
                        },
                    ),
                ),
                Err(e) => Err(e),
            }
        } else if header.tag == Fafx::spec_tag() {
            match Fafx::spec_parse(v, span) {
                Ok((rest, chunk)) => Ok(
                    (
                        rest,
                        MdlxModel {
                            vers: m.vers,
                            modl: m.modl,
                            seqs: m.seqs,
                            glbs: m.glbs,
                            texs: m.texs,
                            snds: m.snds,
                            mtls: m.mtls,
                            txan: m.txan,
                            geos: m.geos,
                            geoa: m.geoa,
                            bone: m.bone,
                            lite: m.lite,
                            help: m.help,
                            atch: m.atch,
                            pivt: m.pivt,
                            prem: m.prem,
                            pre2: m.pre2,
                            ribb: m.ribb,
                            evts: m.evts,
                            cams: m.cams,
                            clid: m.clid,
                            bpos: m.bpos,
                            fafx: Some(chunk),
                            corn: m.corn,
                            ordered: Some(m.order().push(header.tag)),
                        },
                    ),
                ),
                Err(e) => Err(e),
            }
        } else if header.tag == Corn::spec_tag() {
            match Corn::spec_parse(v, span) {
                Ok((rest, chunk)) => Ok(
                    (
                        rest,
                        MdlxModel {
                            vers: m.vers,
                            modl: m.modl,
                            seqs: m.seqs,
                            glbs: m.glbs,
                            texs: m.texs,
                            snds: m.snds,
                            mtls: m.mtls,
                            txan: m.txan,
                            geos: m.geos,
                            geoa: m.geoa,
                            bone: m.bone,
                            lite: m.lite,
                            help: m.help,
                            atch: m.atch,
                            pivt: m.pivt,
                            prem: m.prem,
                            pre2: m.pre2,
                            ribb: m.ribb,
                            evts: m.evts,
                            cams: m.cams,
                            clid: m.clid,
                            bpos: m.bpos,
                            fafx: m.fafx,
                            corn: Some(chunk),
                            ordered: Some(m.order().push(header.tag)),
                        },
                    ),
                ),
                Err(e) => Err(e),
            }
        } else {
            Ok((Seq::empty(), m))
        }
    }

    fn parse_chunk<'a>(&mut self, version: Option<u32>, header: Header, span: &'a [u8]) -> (r:
        Parser<'a, ()>) {
        let v = match &self.vers {
            Some(vers) => Some(vers.version),
            None => version,
        };
        if header.tag.same_as(&Vers::tag()) {
            let (rest, chunk) = Vers::parse_versioned(v, span)?;
            self.vers = Some(chunk);
            record_tag(&mut self.ordered, header.tag);
            Ok((rest, ()))
        } else if header.tag.same_as(&Modl::tag()) {
            let (rest, chunk) = Modl::parse_versioned(v, span)?;
            self.modl = Some(chunk);
            record_tag(&mut self.ordered, header.tag);
            Ok((rest, ()))
        } else if header.tag.same_as(&Seqs::tag()) {
            let (rest, chunk) = Seqs::parse_versioned(v, span)?;
            self.seqs = Some(chunk);
            record_tag(&mut self.ordered, header.tag);
            Ok((rest, ()))
        } else if header.tag.same_as(&Glbs::tag()) {
            let (rest, chunk) = Glbs::parse_versioned(v, span)?;
            self.glbs = Some(chunk);
            record_tag(&mut self.ordered, header.tag);
            Ok((rest, ()))
        } else if header.tag.same_as(&Texs::tag()) {
            let (rest, chunk) = Texs::parse_versioned(v, span)?;
            self.texs = Some(chunk);
            record_tag(&mut self.ordered, header.tag);
            Ok((rest, ()))
        } else if header.tag.same_as(&Snds::tag()) {
            let (rest, chunk) = Snds::parse_versioned(v, span)?;
            self.snds = Some(chunk);
            record_tag(&mut self.ordered, header.tag);
            Ok((rest, ()))
        } else if header.tag.same_as(&Mtls::tag()) {
            let (rest, chunk) = Mtls::parse_versioned(v, span)?;
            self.mtls = Some(chunk);
            record_tag(&mut self.ordered, header.tag);
            Ok((rest, ()))
        } else if header.tag.same_as(&Txan::tag()) {
            let (rest, chunk) = Txan::parse_versioned(v, span)?;
            self.txan = Some(chunk);
            record_tag(&mut self.ordered, header.tag);
            Ok((rest, ()))
        } else if header.tag.same_as(&Geos::tag()) {
            let (rest, chunk) = Geos::parse_versioned(v, span)?;
            self.geos = Some(chunk);
            record_tag(&mut self.ordered, header.tag);
            Ok((rest, ()))
        } else if header.tag.same_as(&Geoa::tag()) {
            let (rest, chunk) = Geoa::parse_versioned(v, span)?;
            self.geoa = Some(chunk);
            record_tag(&mut self.ordered, header.tag);
            Ok((rest, ()))
        } else if header.tag.same_as(&BoneChunk::tag()) {
            let (rest, chunk) = BoneChunk::parse_versioned(v, span)?;
            self.bone = Some(chunk);
            record_tag(&mut self.ordered, header.tag);
            Ok((rest, ()))
        } else if header.tag.same_as(&Lite::tag()) {
            let (rest, chunk) = Lite::parse_versioned(v, span)?;
            self.lite = Some(chunk);
            record_tag(&mut self.ordered, header.tag);
            Ok((rest, ()))
        } else if header.tag.same_as(&Help::tag()) {
            let (rest, chunk) = Help::parse_versioned(v, span)?;
            self.help = Some(chunk);
            record_tag(&mut self.ordered, header.tag);
            Ok((rest, ()))
        } else if header.tag.same_as(&Atch::tag()) {
            let (rest, chunk) = Atch::parse_versioned(v, span)?;
            self.atch = Some(chunk);
            record_tag(&mut self.ordered, header.tag);
            Ok((rest, ()))
        } else if header.tag.same_as(&Pivt::tag()) {
            let (rest, chunk) = Pivt::parse_versioned(v, span)?;
            self.pivt = Some(chunk);
            record_tag(&mut self.ordered, header.tag);
            Ok((rest, ()))
        } else if header.tag.same_as(&Prem::tag()) {
            let (rest, chunk) = Prem::parse_versioned(v, span)?;
            self.prem = Some(chunk);
            record_tag(&mut self.ordered, header.tag);
            Ok((rest, ()))
        } else if header.tag.same_as(&Pre2::tag()) {
            let (rest, chunk) = Pre2::parse_versioned(v, span)?;
            self.pre2 = Some(chunk);
            record_tag(&mut self.ordered, header.tag);
            Ok((rest, ()))
        } else if header.tag.same_as(&Ribb::tag()) {
            let (rest, chunk) = Ribb::parse_versioned(v, span)?;
            self.ribb = Some(chunk);
            record_tag(&mut self.ordered, header.tag);
            Ok((rest, ()))
        } else if header.tag.same_as(&Evts::tag()) {
            let (rest, chunk) = Evts::parse_versioned(v, span)?;
            self.evts = Some(chunk);
            record_tag(&mut self.ordered, header.tag);
            Ok((rest, ()))
        } else if header.tag.same_as(&Cams::tag()) {
            let (rest, chunk) = Cams::parse_versioned(v, span)?;
            self.cams = Some(chunk);
            record_tag(&mut self.ordered, header.tag);
            Ok((rest, ()))
        } else if header.tag.same_as(&Clid::tag()) {
            let (rest, chunk) = Clid::parse_versioned(v, span)?;
            self.clid = Some(chunk);
            record_tag(&mut self.ordered, header.tag);
            Ok((rest, ()))
        } else if header.tag.same_as(&Bpos::tag()) {
            let (rest, chunk) = Bpos::parse_versioned(v, span)?;
            self.bpos = Some(chunk);
            record_tag(&mut self.ordered, header.tag);
            Ok((rest, ()))
        } else if header.tag.same_as(&Fafx::tag()) {
            let (rest, chunk) = Fafx::parse_versioned(v, span)?;
            self.fafx = Some(chunk);
            record_tag(&mut self.ordered, header.tag);
            Ok((rest, ()))
        } else if header.tag.same_as(&Corn::tag()) {
            let (rest, chunk) = Corn::parse_versioned(v, span)?;
            self.corn = Some(chunk);
            record_tag(&mut self.ordered, header.tag);
            Ok((rest, ()))
        } else {
            let rest = vstd::slice::slice_subrange(span, span.len(), span.len());
            assert(rest@ =~= Seq::<u8>::empty());
            Ok((rest, ()))
        }
    }
}

impl LosslessChunks for Mdlx {
    open spec fn knows(tag: Tag) -> bool {
        tag == Vers::spec_tag()
    || tag == Modl::spec_tag()
    || tag == Seqs::spec_tag()
    || tag == Glbs::spec_tag()
    || tag == Texs::spec_tag()
    || tag == Snds::spec_tag()
    || tag == Mtls::spec_tag()
    || tag == Txan::spec_tag()
    || tag == Geos::spec_tag()
    || tag == Geoa::spec_tag()
    || tag == BoneChunk::spec_tag()
    || tag == Lite::spec_tag()
    || tag == Help::spec_tag()
    || tag == Atch::spec_tag()
    || tag == Pivt::spec_tag()
    || tag == Prem::spec_tag()
    || tag == Pre2::spec_tag()
    || tag == Ribb::spec_tag()
    || tag == Evts::spec_tag()
    || tag == Cams::spec_tag()
    || tag == Clid::spec_tag()
    || tag == Bpos::spec_tag()
    || tag == Fafx::spec_tag()
    || tag == Corn::spec_tag()
    }

    proof fn lemma_chunk_step(m: MdlxModel, version: Option<u32>, header: Header, span: Seq<u8>) {
        if header.tag == Vers::spec_tag() {
            lemma_step_vers(m, version, header, span);
        } else if header.tag == Modl::spec_tag() {
            lemma_step_modl(m, version, header, span);
        } else if header.tag == Seqs::spec_tag() {
            lemma_step_seqs(m, version, header, span);
        } else if header.tag == Glbs::spec_tag() {
            lemma_step_glbs(m, version, header, span);
        } else if header.tag == Texs::spec_tag() {
            lemma_step_texs(m, version, header, span);
        } else if header.tag == Snds::spec_tag() {
            lemma_step_snds(m, version, header, span);
        } else if header.tag == Mtls::spec_tag() {
            lemma_step_mtls(m, version, header, span);
        } else if header.tag == Txan::spec_tag() {
            lemma_step_txan(m, version, header, span);
        } else if header.tag == Geos::spec_tag() {
            lemma_step_geos(m, version, header, span);
        } else if header.tag == Geoa::spec_tag() {
            lemma_step_geoa(m, version, header, span);
        } else if header.tag == BoneChunk::spec_tag() {
            lemma_step_bone(m, version, header, span);
        } else if header.tag == Lite::spec_tag() {
            lemma_step_lite(m, version, header, span);
        } else if header.tag == Help::spec_tag() {
            lemma_step_help(m, version, header, span);
        } else if header.tag == Atch::spec_tag() {
            lemma_step_atch(m, version, header, span);
        } else if header.tag == Pivt::spec_tag() {
            lemma_step_pivt(m, version, header, span);
        } else if header.tag == Prem::spec_tag() {
            lemma_step_prem(m, version, header, span);
        } else if header.tag == Pre2::spec_tag() {
            lemma_step_pre2(m, version, header, span);
        } else if header.tag == Ribb::spec_tag() {
            lemma_step_ribb(m, version, header, span);
        } else if header.tag == Evts::spec_tag() {
            lemma_step_evts(m, version, header, span);
        } else if header.tag == Cams::spec_tag() {
            lemma_step_cams(m, version, header, span);
        } else if header.tag == Clid::spec_tag() {
            lemma_step_clid(m, version, header, span);
        } else if header.tag == Bpos::spec_tag() {
            lemma_step_bpos(m, version, header, span);
        } else if header.tag == Fafx::spec_tag() {
            lemma_step_fafx(m, version, header, span);
        } else if header.tag == Corn::spec_tag() {
            lemma_step_corn(m, version, header, span);
        }
    }
}

/// The step of the chunk `vers`: it is recorded under its tag, and its bytes
/// are the span.
#[verifier::rlimit(50)]
proof fn lemma_step_vers(m: MdlxModel, version: Option<u32>, header: Header, span: Seq<u8>)
    requires
        span_announced(span),
        Header::spec_parse(None, span) is Ok,
        Header::spec_parse(None, span)->Ok_0.1 == header,
        header.tag == Vers::spec_tag(),
    ensures
        match Mdlx::spec_chunk(m, version, header, span) {
            Ok((leftover, m2)) => leftover.len() == 0 ==> {
                &&& slot_filled(m, m2, header.tag)
                &&& m2.slot_faithful(header.tag) ==> m2.slot_error(header.tag) is None
                    && m2.slot_wire(header.tag) == span
            },
            Err(_) => true,
        },
{
    Vers::lemma_chunk_parse_wire(spec_version(m, version), span);
}

/// The step of the chunk `modl`: it is recorded under its tag, and its bytes
/// are the span.
#[verifier::rlimit(50)]
proof fn lemma_step_modl(m: MdlxModel, version: Option<u32>, header: Header, span: Seq<u8>)
    requires
        span_announced(span),
        Header::spec_parse(None, span) is Ok,
        Header::spec_parse(None, span)->Ok_0.1 == header,
        header.tag == Modl::spec_tag(),
        header.tag != Vers::spec_tag(),
    ensures
        match Mdlx::spec_chunk(m, version, header, span) {
            Ok((leftover, m2)) => leftover.len() == 0 ==> {
                &&& slot_filled(m, m2, header.tag)
                &&& m2.slot_faithful(header.tag) ==> m2.slot_error(header.tag) is None
                    && m2.slot_wire(header.tag) == span
            },
            Err(_) => true,
        },
{
    Modl::lemma_chunk_parse_wire(spec_version(m, version), span);
}

/// The step of the chunk `seqs`: it is recorded under its tag, and its bytes
/// are the span.
#[verifier::rlimit(50)]
proof fn lemma_step_seqs(m: MdlxModel, version: Option<u32>, header: Header, span: Seq<u8>)
    requires
        span_announced(span),
        Header::spec_parse(None, span) is Ok,
        Header::spec_parse(None, span)->Ok_0.1 == header,
        header.tag == Seqs::spec_tag(),
        header.tag != Vers::spec_tag(),
        header.tag != Modl::spec_tag(),
    ensures
        match Mdlx::spec_chunk(m, version, header, span) {
            Ok((leftover, m2)) => leftover.len() == 0 ==> {
                &&& slot_filled(m, m2, header.tag)
                &&& m2.slot_faithful(header.tag) ==> m2.slot_error(header.tag) is None
                    && m2.slot_wire(header.tag) == span
            },
            Err(_) => true,
        },
{
    Seqs::lemma_chunk_parse_wire(spec_version(m, version), span);
}

/// The step of the chunk `glbs`: it is recorded under its tag, and its bytes
/// are the span.
#[verifier::rlimit(50)]
proof fn lemma_step_glbs(m: MdlxModel, version: Option<u32>, header: Header, span: Seq<u8>)
    requires
        span_announced(span),
        Header::spec_parse(None, span) is Ok,
        Header::spec_parse(None, span)->Ok_0.1 == header,
        header.tag == Glbs::spec_tag(),
        header.tag != Vers::spec_tag(),
        header.tag != Modl::spec_tag(),
        header.tag != Seqs::spec_tag(),
    ensures
        match Mdlx::spec_chunk(m, version, header, span) {
            Ok((leftover, m2)) => leftover.len() == 0 ==> {
                &&& slot_filled(m, m2, header.tag)
                &&& m2.slot_faithful(header.tag) ==> m2.slot_error(header.tag) is None
                    && m2.slot_wire(header.tag) == span
            },
            Err(_) => true,
        },
{
    Glbs::lemma_chunk_parse_wire(spec_version(m, version), span);
}

/// The step of the chunk `texs`: it is recorded under its tag, and its bytes
/// are the span.
#[verifier::rlimit(50)]
proof fn lemma_step_texs(m: MdlxModel, version: Option<u32>, header: Header, span: Seq<u8>)
    requires
        span_announced(span),
        Header::spec_parse(None, span) is Ok,
        Header::spec_parse(None, span)->Ok_0.1 == header,
        header.tag == Texs::spec_tag(),
        header.tag != Vers::spec_tag(),
        header.tag != Modl::spec_tag(),
        header.tag != Seqs::spec_tag(),
        header.tag != Glbs::spec_tag(),
    ensures
        match Mdlx::spec_chunk(m, version, header, span) {
            Ok((leftover, m2)) => leftover.len() == 0 ==> {
                &&& slot_filled(m, m2, header.tag)
                &&& m2.slot_faithful(header.tag) ==> m2.slot_error(header.tag) is None
                    && m2.slot_wire(header.tag) == span
            },
            Err(_) => true,
        },
{
    Texs::lemma_chunk_parse_wire(spec_version(m, version), span);
}

/// The step of the chunk `snds`: it is recorded under its tag, and its bytes
/// are the span.
#[verifier::rlimit(50)]
proof fn lemma_step_snds(m: MdlxModel, version: Option<u32>, header: Header, span: Seq<u8>)
    requires
        span_announced(span),
        Header::spec_parse(None, span) is Ok,
        Header::spec_parse(None, span)->Ok_0.1 == header,
        header.tag == Snds::spec_tag(),
        header.tag != Vers::spec_tag(),
        header.tag != Modl::spec_tag(),
        header.tag != Seqs::spec_tag(),
        header.tag != Glbs::spec_tag(),
        header.tag != Texs::spec_tag(),
    ensures
        match Mdlx::spec_chunk(m, version, header, span) {
            Ok((leftover, m2)) => leftover.len() == 0 ==> {
                &&& slot_filled(m, m2, header.tag)
                &&& m2.slot_faithful(header.tag) ==> m2.slot_error(header.tag) is None
                    && m2.slot_wire(header.tag) == span
            },
            Err(_) => true,
        },
{
    Snds::lemma_chunk_parse_wire(spec_version(m, version), span);
}

/// The step of the chunk `mtls`: it is recorded under its tag, and its bytes
/// are the span.
#[verifier::rlimit(50)]
proof fn lemma_step_mtls(m: MdlxModel, version: Option<u32>, header: Header, span: Seq<u8>)
    requires
        span_announced(span),
        Header::spec_parse(None, span) is Ok,
        Header::spec_parse(None, span)->Ok_0.1 == header,
        header.tag == Mtls::spec_tag(),
        header.tag != Vers::spec_tag(),
        header.tag != Modl::spec_tag(),
        header.tag != Seqs::spec_tag(),
        header.tag != Glbs::spec_tag(),
        header.tag != Texs::spec_tag(),
        header.tag != Snds::spec_tag(),
    ensures
        match Mdlx::spec_chunk(m, version, header, span) {
            Ok((leftover, m2)) => leftover.len() == 0 ==> {
                &&& slot_filled(m, m2, header.tag)
                &&& m2.slot_faithful(header.tag) ==> m2.slot_error(header.tag) is None
                    && m2.slot_wire(header.tag) == span
            },
            Err(_) => true,
        },
{
    Mtls::lemma_chunk_parse_wire(spec_version(m, version), span);
}

/// The step of the chunk `txan`: it is recorded under its tag, and its bytes
/// are the span.
#[verifier::rlimit(50)]
proof fn lemma_step_txan(m: MdlxModel, version: Option<u32>, header: Header, span: Seq<u8>)
    requires
        span_announced(span),
        Header::spec_parse(None, span) is Ok,
        Header::spec_parse(None, span)->Ok_0.1 == header,
        header.tag == Txan::spec_tag(),
        header.tag != Vers::spec_tag(),
        header.tag != Modl::spec_tag(),
        header.tag != Seqs::spec_tag(),
        header.tag != Glbs::spec_tag(),
        header.tag != Texs::spec_tag(),
        header.tag != Snds::spec_tag(),
        header.tag != Mtls::spec_tag(),
    ensures
        match Mdlx::spec_chunk(m, version, header, span) {
            Ok((leftover, m2)) => leftover.len() == 0 ==> {
                &&& slot_filled(m, m2, header.tag)
                &&& m2.slot_faithful(header.tag) ==> m2.slot_error(header.tag) is None
                    && m2.slot_wire(header.tag) == span
            },
            Err(_) => true,
        },
{
    Txan::lemma_chunk_parse_wire(spec_version(m, version), span);
}

/// The step of the chunk `geos`: it is recorded under its tag, and its bytes
/// are the span.
#[verifier::rlimit(50)]
proof fn lemma_step_geos(m: MdlxModel, version: Option<u32>, header: Header, span: Seq<u8>)
    requires
        span_announced(span),
        Header::spec_parse(None, span) is Ok,
        Header::spec_parse(None, span)->Ok_0.1 == header,
        header.tag == Geos::spec_tag(),
        header.tag != Vers::spec_tag(),
        header.tag != Modl::spec_tag(),
        header.tag != Seqs::spec_tag(),
        header.tag != Glbs::spec_tag(),
        header.tag != Texs::spec_tag(),
        header.tag != Snds::spec_tag(),
        header.tag != Mtls::spec_tag(),
        header.tag != Txan::spec_tag(),
    ensures
        match Mdlx::spec_chunk(m, version, header, span) {
            Ok((leftover, m2)) => leftover.len() == 0 ==> {
                &&& slot_filled(m, m2, header.tag)
                &&& m2.slot_faithful(header.tag) ==> m2.slot_error(header.tag) is None
                    && m2.slot_wire(header.tag) == span
            },
            Err(_) => true,
        },
{
    Geos::lemma_chunk_parse_wire(spec_version(m, version), span);
}

/// The step of the chunk `geoa`: it is recorded under its tag, and its bytes
/// are the span.
#[verifier::rlimit(50)]
proof fn lemma_step_geoa(m: MdlxModel, version: Option<u32>, header: Header, span: Seq<u8>)
    requires
        span_announced(span),
        Header::spec_parse(None, span) is Ok,
        Header::spec_parse(None, span)->Ok_0.1 == header,
        header.tag == Geoa::spec_tag(),
        header.tag != Vers::spec_tag(),
        header.tag != Modl::spec_tag(),
        header.tag != Seqs::spec_tag(),
        header.tag != Glbs::spec_tag(),
        header.tag != Texs::spec_tag(),
        header.tag != Snds::spec_tag(),
        header.tag != Mtls::spec_tag(),
        header.tag != Txan::spec_tag(),
        header.tag != Geos::spec_tag(),
    ensures
        match Mdlx::spec_chunk(m, version, header, span) {
            Ok((leftover, m2)) => leftover.len() == 0 ==> {
                &&& slot_filled(m, m2, header.tag)
                &&& m2.slot_faithful(header.tag) ==> m2.slot_error(header.tag) is None
                    && m2.slot_wire(header.tag) == span
            },
            Err(_) => true,
        },
{
    Geoa::lemma_chunk_parse_wire(spec_version(m, version), span);
}

/// The step of the chunk `bone`: it is recorded under its tag, and its bytes
/// are the span.
#[verifier::rlimit(50)]
proof fn lemma_step_bone(m: MdlxModel, version: Option<u32>, header: Header, span: Seq<u8>)
    requires
        span_announced(span),
        Header::spec_parse(None, span) is Ok,
        Header::spec_parse(None, span)->Ok_0.1 == header,
        header.tag == BoneChunk::spec_tag(),
        header.tag != Vers::spec_tag(),
        header.tag != Modl::spec_tag(),
        header.tag != Seqs::spec_tag(),
        header.tag != Glbs::spec_tag(),
        header.tag != Texs::spec_tag(),
        header.tag != Snds::spec_tag(),
        header.tag != Mtls::spec_tag(),
        header.tag != Txan::spec_tag(),
        header.tag != Geos::spec_tag(),
        header.tag != Geoa::spec_tag(),
    ensures
        match Mdlx::spec_chunk(m, version, header, span) {
            Ok((leftover, m2)) => leftover.len() == 0 ==> {
                &&& slot_filled(m, m2, header.tag)
                &&& m2.slot_faithful(header.tag) ==> m2.slot_error(header.tag) is None
                    && m2.slot_wire(header.tag) == span
            },
            Err(_) => true,
        },
{
    BoneChunk::lemma_chunk_parse_wire(spec_version(m, version), span);
}

/// The step of the chunk `lite`: it is recorded under its tag, and its bytes
/// are the span.
#[verifier::rlimit(50)]
proof fn lemma_step_lite(m: MdlxModel, version: Option<u32>, header: Header, span: Seq<u8>)
    requires
        span_announced(span),
        Header::spec_parse(None, span) is Ok,
        Header::spec_parse(None, span)->Ok_0.1 == header,
        header.tag == Lite::spec_tag(),
        header.tag != Vers::spec_tag(),
        header.tag != Modl::spec_tag(),
        header.tag != Seqs::spec_tag(),
        header.tag != Glbs::spec_tag(),
        header.tag != Texs::spec_tag(),
        header.tag != Snds::spec_tag(),
        header.tag != Mtls::spec_tag(),
        header.tag != Txan::spec_tag(),
        header.tag != Geos::spec_tag(),
        header.tag != Geoa::spec_tag(),
        header.tag != BoneChunk::spec_tag(),
    ensures
        match Mdlx::spec_chunk(m, version, header, span) {
            Ok((leftover, m2)) => leftover.len() == 0 ==> {
                &&& slot_filled(m, m2, header.tag)
                &&& m2.slot_faithful(header.tag) ==> m2.slot_error(header.tag) is None
                    && m2.slot_wire(header.tag) == span
            },
            Err(_) => true,
        },
{
    Lite::lemma_chunk_parse_wire(spec_version(m, version), span);
}

/// The step of the chunk `help`: it is recorded under its tag, and its bytes
/// are the span.
#[verifier::rlimit(50)]
proof fn lemma_step_help(m: MdlxModel, version: Option<u32>, header: Header, span: Seq<u8>)
    requires
        span_announced(span),
        Header::spec_parse(None, span) is Ok,
        Header::spec_parse(None, span)->Ok_0.1 == header,
        header.tag == Help::spec_tag(),
        header.tag != Vers::spec_tag(),
        header.tag != Modl::spec_tag(),
        header.tag != Seqs::spec_tag(),
        header.tag != Glbs::spec_tag(),
        header.tag != Texs::spec_tag(),
        header.tag != Snds::spec_tag(),
        header.tag != Mtls::spec_tag(),
        header.tag != Txan::spec_tag(),
        header.tag != Geos::spec_tag(),
        header.tag != Geoa::spec_tag(),
        header.tag != BoneChunk::spec_tag(),
        header.tag != Lite::spec_tag(),
    ensures
        match Mdlx::spec_chunk(m, version, header, span) {
            Ok((leftover, m2)) => leftover.len() == 0 ==> {
                &&& slot_filled(m, m2, header.tag)
                &&& m2.slot_faithful(header.tag) ==> m2.slot_error(header.tag) is None
                    && m2.slot_wire(header.tag) == span
            },
            Err(_) => true,
        },
{
    Help::lemma_chunk_parse_wire(spec_version(m, version), span);
}

/// The step of the chunk `atch`: it is recorded under its tag, and its bytes
/// are the span.
#[verifier::rlimit(50)]
proof fn lemma_step_atch(m: MdlxModel, version: Option<u32>, header: Header, span: Seq<u8>)
    requires
        span_announced(span),
        Header::spec_parse(None, span) is Ok,
        Header::spec_parse(None, span)->Ok_0.1 == header,
        header.tag == Atch::spec_tag(),
        header.tag != Vers::spec_tag(),
        header.tag != Modl::spec_tag(),
        header.tag != Seqs::spec_tag(),
        header.tag != Glbs::spec_tag(),
        header.tag != Texs::spec_tag(),
        header.tag != Snds::spec_tag(),
        header.tag != Mtls::spec_tag(),
        header.tag != Txan::spec_tag(),
        header.tag != Geos::spec_tag(),
        header.tag != Geoa::spec_tag(),
        header.tag != BoneChunk::spec_tag(),
        header.tag != Lite::spec_tag(),
        header.tag != Help::spec_tag(),
    ensures
        match Mdlx::spec_chunk(m, version, header, span) {
            Ok((leftover, m2)) => leftover.len() == 0 ==> {
                &&& slot_filled(m, m2, header.tag)
                &&& m2.slot_faithful(header.tag) ==> m2.slot_error(header.tag) is None
                    && m2.slot_wire(header.tag) == span
            },
            Err(_) => true,
        },
{
    Atch::lemma_chunk_parse_wire(spec_version(m, version), span);
}

/// The step of the chunk `pivt`: it is recorded under its tag, and its bytes
/// are the span.
#[verifier::rlimit(50)]
proof fn lemma_step_pivt(m: MdlxModel, version: Option<u32>, header: Header, span: Seq<u8>)
    requires
        span_announced(span),
        Header::spec_parse(None, span) is Ok,
        Header::spec_parse(None, span)->Ok_0.1 == header,
        header.tag == Pivt::spec_tag(),
        header.tag != Vers::spec_tag(),
        header.tag != Modl::spec_tag(),
        header.tag != Seqs::spec_tag(),
        header.tag != Glbs::spec_tag(),
        header.tag != Texs::spec_tag(),
        header.tag != Snds::spec_tag(),
        header.tag != Mtls::spec_tag(),
        header.tag != Txan::spec_tag(),
        header.tag != Geos::spec_tag(),
        header.tag != Geoa::spec_tag(),
        header.tag != BoneChunk::spec_tag(),
        header.tag != Lite::spec_tag(),
        header.tag != Help::spec_tag(),
        header.tag != Atch::spec_tag(),
    ensures
        match Mdlx::spec_chunk(m, version, header, span) {
            Ok((leftover, m2)) => leftover.len() == 0 ==> {
                &&& slot_filled(m, m2, header.tag)
                &&& m2.slot_faithful(header.tag) ==> m2.slot_error(header.tag) is None
                    && m2.slot_wire(header.tag) == span
            },
            Err(_) => true,
        },
{
    Pivt::lemma_chunk_parse_wire(spec_version(m, version), span);
}

/// The step of the chunk `prem`: it is recorded under its tag, and its bytes
/// are the span.
#[verifier::rlimit(50)]
proof fn lemma_step_prem(m: MdlxModel, version: Option<u32>, header: Header, span: Seq<u8>)
    requires
        span_announced(span),
        Header::spec_parse(None, span) is Ok,
        Header::spec_parse(None, span)->Ok_0.1 == header,
        header.tag == Prem::spec_tag(),
        header.tag != Vers::spec_tag(),
        header.tag != Modl::spec_tag(),
        header.tag != Seqs::spec_tag(),
        header.tag != Glbs::spec_tag(),
        header.tag != Texs::spec_tag(),
        header.tag != Snds::spec_tag(),
        header.tag != Mtls::spec_tag(),
        header.tag != Txan::spec_tag(),
        header.tag != Geos::spec_tag(),
        header.tag != Geoa::spec_tag(),
        header.tag != BoneChunk::spec_tag(),
        header.tag != Lite::spec_tag(),
        header.tag != Help::spec_tag(),
        header.tag != Atch::spec_tag(),
        header.tag != Pivt::spec_tag(),
    ensures
        match Mdlx::spec_chunk(m, version, header, span) {
            Ok((leftover, m2)) => leftover.len() == 0 ==> {
                &&& slot_filled(m, m2, header.tag)
                &&& m2.slot_faithful(header.tag) ==> m2.slot_error(header.tag) is None
                    && m2.slot_wire(header.tag) == span
            },
            Err(_) => true,
        },
{
    Prem::lemma_chunk_parse_wire(spec_version(m, version), span);
}

/// The step of the chunk `pre2`: it is recorded under its tag, and its bytes
/// are the span.
#[verifier::rlimit(50)]
proof fn lemma_step_pre2(m: MdlxModel, version: Option<u32>, header: Header, span: Seq<u8>)
    requires
        span_announced(span),
        Header::spec_parse(None, span) is Ok,
        Header::spec_parse(None, span)->Ok_0.1 == header,
        header.tag == Pre2::spec_tag(),
        header.tag != Vers::spec_tag(),
        header.tag != Modl::spec_tag(),
        header.tag != Seqs::spec_tag(),
        header.tag != Glbs::spec_tag(),
        header.tag != Texs::spec_tag(),
        header.tag != Snds::spec_tag(),
        header.tag != Mtls::spec_tag(),
        header.tag != Txan::spec_tag(),
        header.tag != Geos::spec_tag(),
        header.tag != Geoa::spec_tag(),
        header.tag != BoneChunk::spec_tag(),
        header.tag != Lite::spec_tag(),
        header.tag != Help::spec_tag(),
        header.tag != Atch::spec_tag(),
        header.tag != Pivt::spec_tag(),
        header.tag != Prem::spec_tag(),
    ensures
        match Mdlx::spec_chunk(m, version, header, span) {
            Ok((leftover, m2)) => leftover.len() == 0 ==> {
                &&& slot_filled(m, m2, header.tag)
                &&& m2.slot_faithful(header.tag) ==> m2.slot_error(header.tag) is None
                    && m2.slot_wire(header.tag) == span
            },
            Err(_) => true,
        },
{
    Pre2::lemma_chunk_parse_wire(spec_version(m, version), span);
}

/// The step of the chunk `ribb`: it is recorded under its tag, and its bytes
/// are the span.
#[verifier::rlimit(50)]
proof fn lemma_step_ribb(m: MdlxModel, version: Option<u32>, header: Header, span: Seq<u8>)
    requires
        span_announced(span),
        Header::spec_parse(None, span) is Ok,
        Header::spec_parse(None, span)->Ok_0.1 == header,
        header.tag == Ribb::spec_tag(),
        header.tag != Vers::spec_tag(),
        header.tag != Modl::spec_tag(),
        header.tag != Seqs::spec_tag(),
        header.tag != Glbs::spec_tag(),
        header.tag != Texs::spec_tag(),
        header.tag != Snds::spec_tag(),
        header.tag != Mtls::spec_tag(),
        header.tag != Txan::spec_tag(),
        header.tag != Geos::spec_tag(),
        header.tag != Geoa::spec_tag(),
        header.tag != BoneChunk::spec_tag(),
        header.tag != Lite::spec_tag(),
        header.tag != Help::spec_tag(),
        header.tag != Atch::spec_tag(),
        header.tag != Pivt::spec_tag(),
        header.tag != Prem::spec_tag(),
        header.tag != Pre2::spec_tag(),
    ensures
        match Mdlx::spec_chunk(m, version, header, span) {
            Ok((leftover, m2)) => leftover.len() == 0 ==> {
                &&& slot_filled(m, m2, header.tag)
                &&& m2.slot_faithful(header.tag) ==> m2.slot_error(header.tag) is None
                    && m2.slot_wire(header.tag) == span
            },
            Err(_) => true,
        },
{
    Ribb::lemma_chunk_parse_wire(spec_version(m, version), span);
}

/// The step of the chunk `evts`: it is recorded under its tag, and its bytes
/// are the span.
#[verifier::rlimit(50)]
proof fn lemma_step_evts(m: MdlxModel, version: Option<u32>, header: Header, span: Seq<u8>)
    requires
        span_announced(span),
        Header::spec_parse(None, span) is Ok,
        Header::spec_parse(None, span)->Ok_0.1 == header,
        header.tag == Evts::spec_tag(),
        header.tag != Vers::spec_tag(),
        header.tag != Modl::spec_tag(),
        header.tag != Seqs::spec_tag(),
        header.tag != Glbs::spec_tag(),
        header.tag != Texs::spec_tag(),
        header.tag != Snds::spec_tag(),
        header.tag != Mtls::spec_tag(),
        header.tag != Txan::spec_tag(),
        header.tag != Geos::spec_tag(),
        header.tag != Geoa::spec_tag(),
        header.tag != BoneChunk::spec_tag(),
        header.tag != Lite::spec_tag(),
        header.tag != Help::spec_tag(),
        header.tag != Atch::spec_tag(),
        header.tag != Pivt::spec_tag(),
        header.tag != Prem::spec_tag(),
        header.tag != Pre2::spec_tag(),
        header.tag != Ribb::spec_tag(),
    ensures
        match Mdlx::spec_chunk(m, version, header, span) {
            Ok((leftover, m2)) => leftover.len() == 0 ==> {
                &&& slot_filled(m, m2, header.tag)
                &&& m2.slot_faithful(header.tag) ==> m2.slot_error(header.tag) is None
                    && m2.slot_wire(header.tag) == span
            },
            Err(_) => true,
        },
{
    Evts::lemma_chunk_parse_wire(spec_version(m, version), span);
}

/// The step of the chunk `cams`: it is recorded under its tag, and its bytes
/// are the span.
#[verifier::rlimit(50)]
proof fn lemma_step_cams(m: MdlxModel, version: Option<u32>, header: Header, span: Seq<u8>)
    requires
        span_announced(span),
        Header::spec_parse(None, span) is Ok,
        Header::spec_parse(None, span)->Ok_0.1 == header,
        header.tag == Cams::spec_tag(),
        header.tag != Vers::spec_tag(),
        header.tag != Modl::spec_tag(),
        header.tag != Seqs::spec_tag(),
        header.tag != Glbs::spec_tag(),
        header.tag != Texs::spec_tag(),
        header.tag != Snds::spec_tag(),
        header.tag != Mtls::spec_tag(),
        header.tag != Txan::spec_tag(),
        header.tag != Geos::spec_tag(),
        header.tag != Geoa::spec_tag(),
        header.tag != BoneChunk::spec_tag(),
        header.tag != Lite::spec_tag(),
        header.tag != Help::spec_tag(),
        header.tag != Atch::spec_tag(),
        header.tag != Pivt::spec_tag(),
        header.tag != Prem::spec_tag(),
        header.tag != Pre2::spec_tag(),
        header.tag != Ribb::spec_tag(),
        header.tag != Evts::spec_tag(),
    ensures
        match Mdlx::spec_chunk(m, version, header, span) {
            Ok((leftover, m2)) => leftover.len() == 0 ==> {
                &&& slot_filled(m, m2, header.tag)
                &&& m2.slot_faithful(header.tag) ==> m2.slot_error(header.tag) is None
                    && m2.slot_wire(header.tag) == span
            },
            Err(_) => true,
        },
{
    Cams::lemma_chunk_parse_wire(spec_version(m, version), span);
}

/// The step of the chunk `clid`: it is recorded under its tag, and its bytes
/// are the span.
#[verifier::rlimit(50)]
proof fn lemma_step_clid(m: MdlxModel, version: Option<u32>, header: Header, span: Seq<u8>)
    requires
        span_announced(span),
        Header::spec_parse(None, span) is Ok,
        Header::spec_parse(None, span)->Ok_0.1 == header,
        header.tag == Clid::spec_tag(),
        header.tag != Vers::spec_tag(),
        header.tag != Modl::spec_tag(),
        header.tag != Seqs::spec_tag(),
        header.tag != Glbs::spec_tag(),
        header.tag != Texs::spec_tag(),
        header.tag != Snds::spec_tag(),
        header.tag != Mtls::spec_tag(),
        header.tag != Txan::spec_tag(),
        header.tag != Geos::spec_tag(),
        header.tag != Geoa::spec_tag(),
        header.tag != BoneChunk::spec_tag(),
        header.tag != Lite::spec_tag(),
        header.tag != Help::spec_tag(),
        header.tag != Atch::spec_tag(),
        header.tag != Pivt::spec_tag(),
        header.tag != Prem::spec_tag(),
        header.tag != Pre2::spec_tag(),
        header.tag != Ribb::spec_tag(),
        header.tag != Evts::spec_tag(),
        header.tag != Cams::spec_tag(),
    ensures
        match Mdlx::spec_chunk(m, version, header, span) {
            Ok((leftover, m2)) => leftover.len() == 0 ==> {
                &&& slot_filled(m, m2, header.tag)
                &&& m2.slot_faithful(header.tag) ==> m2.slot_error(header.tag) is None
                    && m2.slot_wire(header.tag) == span
            },
            Err(_) => true,
        },
{
    Clid::lemma_chunk_parse_wire(spec_version(m, version), span);
}

/// The step of the chunk `bpos`: it is recorded under its tag, and its bytes
/// are the span.
#[verifier::rlimit(50)]
proof fn lemma_step_bpos(m: MdlxModel, version: Option<u32>, header: Header, span: Seq<u8>)
    requires
        span_announced(span),
        Header::spec_parse(None, span) is Ok,
        Header::spec_parse(None, span)->Ok_0.1 == header,
        header.tag == Bpos::spec_tag(),
        header.tag != Vers::spec_tag(),
        header.tag != Modl::spec_tag(),
        header.tag != Seqs::spec_tag(),
        header.tag != Glbs::spec_tag(),
        header.tag != Texs::spec_tag(),
        header.tag != Snds::spec_tag(),
        header.tag != Mtls::spec_tag(),
        header.tag != Txan::spec_tag(),
        header.tag != Geos::spec_tag(),
        header.tag != Geoa::spec_tag(),
        header.tag != BoneChunk::spec_tag(),
        header.tag != Lite::spec_tag(),
        header.tag != Help::spec_tag(),
        header.tag != Atch::spec_tag(),
        header.tag != Pivt::spec_tag(),
        header.tag != Prem::spec_tag(),
        header.tag != Pre2::spec_tag(),
        header.tag != Ribb::spec_tag(),
        header.tag != Evts::spec_tag(),
        header.tag != Cams::spec_tag(),
        header.tag != Clid::spec_tag(),
    ensures
        match Mdlx::spec_chunk(m, version, header, span) {
            Ok((leftover, m2)) => leftover.len() == 0 ==> {
                &&& slot_filled(m, m2, header.tag)
                &&& m2.slot_faithful(header.tag) ==> m2.slot_error(header.tag) is None
                    && m2.slot_wire(header.tag) == span
            },
            Err(_) => true,
        },
{
    Bpos::lemma_chunk_parse_wire(spec_version(m, version), span);
}

/// The step of the chunk `fafx`: it is recorded under its tag, and its bytes
/// are the span.
#[verifier::rlimit(50)]
proof fn lemma_step_fafx(m: MdlxModel, version: Option<u32>, header: Header, span: Seq<u8>)
    requires
        span_announced(span),
        Header::spec_parse(None, span) is Ok,
        Header::spec_parse(None, span)->Ok_0.1 == header,
        header.tag == Fafx::spec_tag(),
        header.tag != Vers::spec_tag(),
        header.tag != Modl::spec_tag(),
        header.tag != Seqs::spec_tag(),
        header.tag != Glbs::spec_tag(),
        header.tag != Texs::spec_tag(),
        header.tag != Snds::spec_tag(),
        header.tag != Mtls::spec_tag(),
        header.tag != Txan::spec_tag(),
        header.tag != Geos::spec_tag(),
        header.tag != Geoa::spec_tag(),
        header.tag != BoneChunk::spec_tag(),
        header.tag != Lite::spec_tag(),
        header.tag != Help::spec_tag(),
        header.tag != Atch::spec_tag(),
        header.tag != Pivt::spec_tag(),
        header.tag != Prem::spec_tag(),
        header.tag != Pre2::spec_tag(),
        header.tag != Ribb::spec_tag(),
        header.tag != Evts::spec_tag(),
        header.tag != Cams::spec_tag(),
        header.tag != Clid::spec_tag(),
        header.tag != Bpos::spec_tag(),
    ensures
        match Mdlx::spec_chunk(m, version, header, span) {
            Ok((leftover, m2)) => leftover.len() == 0 ==> {
                &&& slot_filled(m, m2, header.tag)
                &&& m2.slot_faithful(header.tag) ==> m2.slot_error(header.tag) is None
                    && m2.slot_wire(header.tag) == span
            },
            Err(_) => true,
        },
{
    Fafx::lemma_chunk_parse_wire(spec_version(m, version), span);
}

/// The step of the chunk `corn`: it is recorded under its tag, and its bytes
/// are the span.
#[verifier::rlimit(50)]
proof fn lemma_step_corn(m: MdlxModel, version: Option<u32>, header: Header, span: Seq<u8>)
    requires
        span_announced(span),
        Header::spec_parse(None, span) is Ok,
        Header::spec_parse(None, span)->Ok_0.1 == header,
        header.tag == Corn::spec_tag(),
        header.tag != Vers::spec_tag(),
        header.tag != Modl::spec_tag(),
        header.tag != Seqs::spec_tag(),
        header.tag != Glbs::spec_tag(),
        header.tag != Texs::spec_tag(),
        header.tag != Snds::spec_tag(),
        header.tag != Mtls::spec_tag(),
        header.tag != Txan::spec_tag(),
        header.tag != Geos::spec_tag(),
        header.tag != Geoa::spec_tag(),
        header.tag != BoneChunk::spec_tag(),
        header.tag != Lite::spec_tag(),
        header.tag != Help::spec_tag(),
        header.tag != Atch::spec_tag(),
        header.tag != Pivt::spec_tag(),
        header.tag != Prem::spec_tag(),
        header.tag != Pre2::spec_tag(),
        header.tag != Ribb::spec_tag(),
        header.tag != Evts::spec_tag(),
        header.tag != Cams::spec_tag(),
        header.tag != Clid::spec_tag(),
        header.tag != Bpos::spec_tag(),
        header.tag != Fafx::spec_tag(),
    ensures
        match Mdlx::spec_chunk(m, version, header, span) {
            Ok((leftover, m2)) => leftover.len() == 0 ==> {
                &&& slot_filled(m, m2, header.tag)
                &&& m2.slot_faithful(header.tag) ==> m2.slot_error(header.tag) is None
                    && m2.slot_wire(header.tag) == span
            },
            Err(_) => true,
        },
{
    Corn::lemma_chunk_parse_wire(spec_version(m, version), span);
}

impl Materialized for Mdlx {
    type Version = u32;

    type Model = MdlxModel;

    open spec fn model(&self) -> MdlxModel {
        self.slots_model()
    }

    open spec fn spec_parse(version: Option<u32>, input: Seq<u8>) -> Parsed<MdlxModel> {
        match spec_expect_tag(Self::spec_tag(), input) {
            Ok((rest, _)) => spec_parse_subchunks::<Mdlx>(
                MdlxModel::empty(Some(Seq::empty())),
                version,
                rest,
            ),
            Err(e) => Err(e),
        }
    }

    open spec fn wire(m: MdlxModel) -> Seq<u8> {
        Self::spec_tag().0@ + wire_slots(m)
    }

    open spec fn encode_error(m: MdlxModel) -> Option<EncodeError> {
        encode_error_slots(m)
    }

    fn parse_versioned<'a>(version: Option<u32>, input: &'a [u8]) -> (r: Parser<'a, Mdlx>) {
        let (input, _) = Self::expect_tag(input)?;
        let mut result = Self::new();
        result.ordered = Some(Vec::new());
        let (input, _) = parse_subchunks(&mut result, version, input)?;
        Ok((input, result))
    }

    fn encode(&self, output: &mut Vec<u8>) -> (r: Result<(), EncodeError>) {
        let ghost p0 = output@;
        Self::encode_tag(output)?;
        let canonical = [
            Vers::tag(),
            Modl::tag(),
            Seqs::tag(),
            Glbs::tag(),
            Texs::tag(),
            Snds::tag(),
            Mtls::tag(),
            Txan::tag(),
            Geos::tag(),
            Geoa::tag(),
            BoneChunk::tag(),
            Lite::tag(),
            Help::tag(),
            Atch::tag(),
            Pivt::tag(),
            Prem::tag(),
            Pre2::tag(),
            Ribb::tag(),
            Evts::tag(),
            Cams::tag(),
            Clid::tag(),
            Bpos::tag(),
            Fafx::tag(),
            Corn::tag(),
        ];
        assert(canonical@ =~= MdlxModel::canonical());
        encode_slots(self, &self.ordered, canonical.as_slice(), output)?;
        proof {
            lemma_append_assoc(p0, Self::spec_tag().0@, wire_slots(self.model()));
        }
        Ok(())
    }
}

impl Mdlx {
    /// The models in which no chunk and no optional block was met twice while
    /// parsing.
    pub open spec fn faithful(m: MdlxModel) -> bool {
        m.order().no_duplicates() && slots_faithful(m, m.order())
    }

    /// What a model was parsed to records the order of its chunks and uses up
    /// the input. If no chunk and no optional block was met twice and every
    /// chunk is one that the model knows, it is encoded to the bytes it was
    /// parsed from.
    pub proof fn lemma_parse_wire(version: Option<u32>, input: Seq<u8>)
        ensures
            match Mdlx::spec_parse(version, input) {
                Ok((rest, m)) => {
                    &&& rest.len() == 0
                    &&& Mdlx::faithful(m) && all_known::<Mdlx>(input.skip(4)) ==> Mdlx::encode_error(
                        m,
                    ) is None && Mdlx::wire(m) == input
                },
                Err(_) => true,
            },
    {
        lemma_expect_tag(Self::spec_tag(), input);
        match spec_expect_tag(Self::spec_tag(), input) {
            Ok((rest1, _)) => {
                let m0 = MdlxModel::empty(Some(Seq::empty()));
                lemma_subchunks_parse_wire::<Mdlx>(m0, version, rest1);
                match spec_parse_subchunks::<Mdlx>(m0, version, rest1) {
                    Ok((rest, m)) => {
                        if Mdlx::faithful(m) && all_known::<Mdlx>(input.skip(4)) {
                            assert(m.order().skip(0) =~= m.order());
                            assert(wire_slots(m) + rest =~= wire_slots(m));
                        }
                    },
                    Err(_) => {},
                }
            },
            Err(_) => {},
        }
    }
}


/// The tags of the chunks of a model differ from each other.
#[verifier::rlimit(100)]
proof fn lemma_mdlx_tags_differ()
    ensures
        Vers::spec_tag() != Modl::spec_tag(),
        Vers::spec_tag() != Seqs::spec_tag(),
        Vers::spec_tag() != Glbs::spec_tag(),
        Vers::spec_tag() != Texs::spec_tag(),
        Vers::spec_tag() != Snds::spec_tag(),
        Vers::spec_tag() != Mtls::spec_tag(),
        Vers::spec_tag() != Txan::spec_tag(),
        Vers::spec_tag() != Geos::spec_tag(),
        Vers::spec_tag() != Geoa::spec_tag(),
        Vers::spec_tag() != BoneChunk::spec_tag(),
        Vers::spec_tag() != Lite::spec_tag(),
        Vers::spec_tag() != Help::spec_tag(),
        Vers::spec_tag() != Atch::spec_tag(),
        Vers::spec_tag() != Pivt::spec_tag(),
        Vers::spec_tag() != Prem::spec_tag(),
        Vers::spec_tag() != Pre2::spec_tag(),
        Vers::spec_tag() != Ribb::spec_tag(),
        Vers::spec_tag() != Evts::spec_tag(),
        Vers::spec_tag() != Cams::spec_tag(),
        Vers::spec_tag() != Clid::spec_tag(),
        Vers::spec_tag() != Bpos::spec_tag(),
        Vers::spec_tag() != Fafx::spec_tag(),
        Vers::spec_tag() != Corn::spec_tag(),
        Modl::spec_tag() != Seqs::spec_tag(),
        Modl::spec_tag() != Glbs::spec_tag(),
        Modl::spec_tag() != Texs::spec_tag(),
        Modl::spec_tag() != Snds::spec_tag(),
        Modl::spec_tag() != Mtls::spec_tag(),
        Modl::spec_tag() != Txan::spec_tag(),
        Modl::spec_tag() != Geos::spec_tag(),
        Modl::spec_tag() != Geoa::spec_tag(),
        Modl::spec_tag() != BoneChunk::spec_tag(),
        Modl::spec_tag() != Lite::spec_tag(),
        Modl::spec_tag() != Help::spec_tag(),
        Modl::spec_tag() != Atch::spec_tag(),
        Modl::spec_tag() != Pivt::spec_tag(),
        Modl::spec_tag() != Prem::spec_tag(),
        Modl::spec_tag() != Pre2::spec_tag(),
        Modl::spec_tag() != Ribb::spec_tag(),
        Modl::spec_tag() != Evts::spec_tag(),
        Modl::spec_tag() != Cams::spec_tag(),
        Modl::spec_tag() != Clid::spec_tag(),
        Modl::spec_tag() != Bpos::spec_tag(),
        Modl::spec_tag() != Fafx::spec_tag(),
        Modl::spec_tag() != Corn::spec_tag(),
        Seqs::spec_tag() != Glbs::spec_tag(),
        Seqs::spec_tag() != Texs::spec_tag(),
        Seqs::spec_tag() != Snds::spec_tag(),
        Seqs::spec_tag() != Mtls::spec_tag(),
        Seqs::spec_tag() != Txan::spec_tag(),
        Seqs::spec_tag() != Geos::spec_tag(),
        Seqs::spec_tag() != Geoa::spec_tag(),
        Seqs::spec_tag() != BoneChunk::spec_tag(),
        Seqs::spec_tag() != Lite::spec_tag(),
        Seqs::spec_tag() != Help::spec_tag(),
        Seqs::spec_tag() != Atch::spec_tag(),
        Seqs::spec_tag() != Pivt::spec_tag(),
        Seqs::spec_tag() != Prem::spec_tag(),
        Seqs::spec_tag() != Pre2::spec_tag(),
        Seqs::spec_tag() != Ribb::spec_tag(),
        Seqs::spec_tag() != Evts::spec_tag(),
        Seqs::spec_tag() != Cams::spec_tag(),
        Seqs::spec_tag() != Clid::spec_tag(),
        Seqs::spec_tag() != Bpos::spec_tag(),
        Seqs::spec_tag() != Fafx::spec_tag(),
        Seqs::spec_tag() != Corn::spec_tag(),
        Glbs::spec_tag() != Texs::spec_tag(),
        Glbs::spec_tag() != Snds::spec_tag(),
        Glbs::spec_tag() != Mtls::spec_tag(),
        Glbs::spec_tag() != Txan::spec_tag(),
        Glbs::spec_tag() != Geos::spec_tag(),
        Glbs::spec_tag() != Geoa::spec_tag(),
        Glbs::spec_tag() != BoneChunk::spec_tag(),
        Glbs::spec_tag() != Lite::spec_tag(),
        Glbs::spec_tag() != Help::spec_tag(),
        Glbs::spec_tag() != Atch::spec_tag(),
        Glbs::spec_tag() != Pivt::spec_tag(),
        Glbs::spec_tag() != Prem::spec_tag(),
        Glbs::spec_tag() != Pre2::spec_tag(),
        Glbs::spec_tag() != Ribb::spec_tag(),
        Glbs::spec_tag() != Evts::spec_tag(),
        Glbs::spec_tag() != Cams::spec_tag(),
        Glbs::spec_tag() != Clid::spec_tag(),
        Glbs::spec_tag() != Bpos::spec_tag(),
        Glbs::spec_tag() != Fafx::spec_tag(),
        Glbs::spec_tag() != Corn::spec_tag(),
        Texs::spec_tag() != Snds::spec_tag(),
        Texs::spec_tag() != Mtls::spec_tag(),
        Texs::spec_tag() != Txan::spec_tag(),
        Texs::spec_tag() != Geos::spec_tag(),
        Texs::spec_tag() != Geoa::spec_tag(),
        Texs::spec_tag() != BoneChunk::spec_tag(),
        Texs::spec_tag() != Lite::spec_tag(),
        Texs::spec_tag() != Help::spec_tag(),
        Texs::spec_tag() != Atch::spec_tag(),
        Texs::spec_tag() != Pivt::spec_tag(),
        Texs::spec_tag() != Prem::spec_tag(),
        Texs::spec_tag() != Pre2::spec_tag(),
        Texs::spec_tag() != Ribb::spec_tag(),
        Texs::spec_tag() != Evts::spec_tag(),
        Texs::spec_tag() != Cams::spec_tag(),
        Texs::spec_tag() != Clid::spec_tag(),
        Texs::spec_tag() != Bpos::spec_tag(),
        Texs::spec_tag() != Fafx::spec_tag(),
        Texs::spec_tag() != Corn::spec_tag(),
        Snds::spec_tag() != Mtls::spec_tag(),
        Snds::spec_tag() != Txan::spec_tag(),
        Snds::spec_tag() != Geos::spec_tag(),
        Snds::spec_tag() != Geoa::spec_tag(),
        Snds::spec_tag() != BoneChunk::spec_tag(),
        Snds::spec_tag() != Lite::spec_tag(),
        Snds::spec_tag() != Help::spec_tag(),
        Snds::spec_tag() != Atch::spec_tag(),
        Snds::spec_tag() != Pivt::spec_tag(),
        Snds::spec_tag() != Prem::spec_tag(),
        Snds::spec_tag() != Pre2::spec_tag(),
        Snds::spec_tag() != Ribb::spec_tag(),
        Snds::spec_tag() != Evts::spec_tag(),
        Snds::spec_tag() != Cams::spec_tag(),
        Snds::spec_tag() != Clid::spec_tag(),
        Snds::spec_tag() != Bpos::spec_tag(),
        Snds::spec_tag() != Fafx::spec_tag(),
        Snds::spec_tag() != Corn::spec_tag(),
        Mtls::spec_tag() != Txan::spec_tag(),
        Mtls::spec_tag() != Geos::spec_tag(),
        Mtls::spec_tag() != Geoa::spec_tag(),
        Mtls::spec_tag() != BoneChunk::spec_tag(),
        Mtls::spec_tag() != Lite::spec_tag(),
        Mtls::spec_tag() != Help::spec_tag(),
        Mtls::spec_tag() != Atch::spec_tag(),
        Mtls::spec_tag() != Pivt::spec_tag(),
        Mtls::spec_tag() != Prem::spec_tag(),
        Mtls::spec_tag() != Pre2::spec_tag(),
        Mtls::spec_tag() != Ribb::spec_tag(),
        Mtls::spec_tag() != Evts::spec_tag(),
        Mtls::spec_tag() != Cams::spec_tag(),
        Mtls::spec_tag() != Clid::spec_tag(),
        Mtls::spec_tag() != Bpos::spec_tag(),
        Mtls::spec_tag() != Fafx::spec_tag(),
        Mtls::spec_tag() != Corn::spec_tag(),
        Txan::spec_tag() != Geos::spec_tag(),
        Txan::spec_tag() != Geoa::spec_tag(),
        Txan::spec_tag() != BoneChunk::spec_tag(),
        Txan::spec_tag() != Lite::spec_tag(),
        Txan::spec_tag() != Help::spec_tag(),
        Txan::spec_tag() != Atch::spec_tag(),
        Txan::spec_tag() != Pivt::spec_tag(),
        Txan::spec_tag() != Prem::spec_tag(),
        Txan::spec_tag() != Pre2::spec_tag(),
        Txan::spec_tag() != Ribb::spec_tag(),
        Txan::spec_tag() != Evts::spec_tag(),
        Txan::spec_tag() != Cams::spec_tag(),
        Txan::spec_tag() != Clid::spec_tag(),
        Txan::spec_tag() != Bpos::spec_tag(),
        Txan::spec_tag() != Fafx::spec_tag(),
        Txan::spec_tag() != Corn::spec_tag(),
        Geos::spec_tag() != Geoa::spec_tag(),
        Geos::spec_tag() != BoneChunk::spec_tag(),
        Geos::spec_tag() != Lite::spec_tag(),
        Geos::spec_tag() != Help::spec_tag(),
        Geos::spec_tag() != Atch::spec_tag(),
        Geos::spec_tag() != Pivt::spec_tag(),
        Geos::spec_tag() != Prem::spec_tag(),
        Geos::spec_tag() != Pre2::spec_tag(),
        Geos::spec_tag() != Ribb::spec_tag(),
        Geos::spec_tag() != Evts::spec_tag(),
        Geos::spec_tag() != Cams::spec_tag(),
        Geos::spec_tag() != Clid::spec_tag(),
        Geos::spec_tag() != Bpos::spec_tag(),
        Geos::spec_tag() != Fafx::spec_tag(),
        Geos::spec_tag() != Corn::spec_tag(),
        Geoa::spec_tag() != BoneChunk::spec_tag(),
        Geoa::spec_tag() != Lite::spec_tag(),
        Geoa::spec_tag() != Help::spec_tag(),
        Geoa::spec_tag() != Atch::spec_tag(),
        Geoa::spec_tag() != Pivt::spec_tag(),
        Geoa::spec_tag() != Prem::spec_tag(),
        Geoa::spec_tag() != Pre2::spec_tag(),
        Geoa::spec_tag() != Ribb::spec_tag(),
        Geoa::spec_tag() != Evts::spec_tag(),
        Geoa::spec_tag() != Cams::spec_tag(),
        Geoa::spec_tag() != Clid::spec_tag(),
        Geoa::spec_tag() != Bpos::spec_tag(),
        Geoa::spec_tag() != Fafx::spec_tag(),
        Geoa::spec_tag() != Corn::spec_tag(),
        BoneChunk::spec_tag() != Lite::spec_tag(),
        BoneChunk::spec_tag() != Help::spec_tag(),
        BoneChunk::spec_tag() != Atch::spec_tag(),
        BoneChunk::spec_tag() != Pivt::spec_tag(),
        BoneChunk::spec_tag() != Prem::spec_tag(),
        BoneChunk::spec_tag() != Pre2::spec_tag(),
        BoneChunk::spec_tag() != Ribb::spec_tag(),
        BoneChunk::spec_tag() != Evts::spec_tag(),
        BoneChunk::spec_tag() != Cams::spec_tag(),
        BoneChunk::spec_tag() != Clid::spec_tag(),
        BoneChunk::spec_tag() != Bpos::spec_tag(),
        BoneChunk::spec_tag() != Fafx::spec_tag(),
        BoneChunk::spec_tag() != Corn::spec_tag(),
        Lite::spec_tag() != Help::spec_tag(),
        Lite::spec_tag() != Atch::spec_tag(),
        Lite::spec_tag() != Pivt::spec_tag(),
        Lite::spec_tag() != Prem::spec_tag(),
        Lite::spec_tag() != Pre2::spec_tag(),
        Lite::spec_tag() != Ribb::spec_tag(),
        Lite::spec_tag() != Evts::spec_tag(),
        Lite::spec_tag() != Cams::spec_tag(),
        Lite::spec_tag() != Clid::spec_tag(),
        Lite::spec_tag() != Bpos::spec_tag(),
        Lite::spec_tag() != Fafx::spec_tag(),
        Lite::spec_tag() != Corn::spec_tag(),
        Help::spec_tag() != Atch::spec_tag(),
        Help::spec_tag() != Pivt::spec_tag(),
        Help::spec_tag() != Prem::spec_tag(),
        Help::spec_tag() != Pre2::spec_tag(),
        Help::spec_tag() != Ribb::spec_tag(),
        Help::spec_tag() != Evts::spec_tag(),
        Help::spec_tag() != Cams::spec_tag(),
        Help::spec_tag() != Clid::spec_tag(),
        Help::spec_tag() != Bpos::spec_tag(),
        Help::spec_tag() != Fafx::spec_tag(),
        Help::spec_tag() != Corn::spec_tag(),
        Atch::spec_tag() != Pivt::spec_tag(),
        Atch::spec_tag() != Prem::spec_tag(),
        Atch::spec_tag() != Pre2::spec_tag(),
        Atch::spec_tag() != Ribb::spec_tag(),
        Atch::spec_tag() != Evts::spec_tag(),
        Atch::spec_tag() != Cams::spec_tag(),
        Atch::spec_tag() != Clid::spec_tag(),
        Atch::spec_tag() != Bpos::spec_tag(),
        Atch::spec_tag() != Fafx::spec_tag(),
        Atch::spec_tag() != Corn::spec_tag(),
        Pivt::spec_tag() != Prem::spec_tag(),
        Pivt::spec_tag() != Pre2::spec_tag(),
        Pivt::spec_tag() != Ribb::spec_tag(),
        Pivt::spec_tag() != Evts::spec_tag(),
        Pivt::spec_tag() != Cams::spec_tag(),
        Pivt::spec_tag() != Clid::spec_tag(),
        Pivt::spec_tag() != Bpos::spec_tag(),
        Pivt::spec_tag() != Fafx::spec_tag(),
        Pivt::spec_tag() != Corn::spec_tag(),
        Prem::spec_tag() != Pre2::spec_tag(),
        Prem::spec_tag() != Ribb::spec_tag(),
        Prem::spec_tag() != Evts::spec_tag(),
        Prem::spec_tag() != Cams::spec_tag(),
        Prem::spec_tag() != Clid::spec_tag(),
        Prem::spec_tag() != Bpos::spec_tag(),
        Prem::spec_tag() != Fafx::spec_tag(),
        Prem::spec_tag() != Corn::spec_tag(),
        Pre2::spec_tag() != Ribb::spec_tag(),
        Pre2::spec_tag() != Evts::spec_tag(),
        Pre2::spec_tag() != Cams::spec_tag(),
        Pre2::spec_tag() != Clid::spec_tag(),
        Pre2::spec_tag() != Bpos::spec_tag(),
        Pre2::spec_tag() != Fafx::spec_tag(),
        Pre2::spec_tag() != Corn::spec_tag(),
        Ribb::spec_tag() != Evts::spec_tag(),
        Ribb::spec_tag() != Cams::spec_tag(),
        Ribb::spec_tag() != Clid::spec_tag(),
        Ribb::spec_tag() != Bpos::spec_tag(),
        Ribb::spec_tag() != Fafx::spec_tag(),
        Ribb::spec_tag() != Corn::spec_tag(),
        Evts::spec_tag() != Cams::spec_tag(),
        Evts::spec_tag() != Clid::spec_tag(),
        Evts::spec_tag() != Bpos::spec_tag(),
        Evts::spec_tag() != Fafx::spec_tag(),
        Evts::spec_tag() != Corn::spec_tag(),
        Cams::spec_tag() != Clid::spec_tag(),
        Cams::spec_tag() != Bpos::spec_tag(),
        Cams::spec_tag() != Fafx::spec_tag(),
        Cams::spec_tag() != Corn::spec_tag(),
        Clid::spec_tag() != Bpos::spec_tag(),
        Clid::spec_tag() != Fafx::spec_tag(),
        Clid::spec_tag() != Corn::spec_tag(),
        Bpos::spec_tag() != Fafx::spec_tag(),
        Bpos::spec_tag() != Corn::spec_tag(),
        Fafx::spec_tag() != Corn::spec_tag(),
{
    assert(Vers::spec_tag().0[0] != Modl::spec_tag().0[0]);
    assert(Vers::spec_tag().0[0] != Seqs::spec_tag().0[0]);
    assert(Vers::spec_tag().0[0] != Glbs::spec_tag().0[0]);
    assert(Vers::spec_tag().0[0] != Texs::spec_tag().0[0]);
    assert(Vers::spec_tag().0[0] != Snds::spec_tag().0[0]);
    assert(Vers::spec_tag().0[0] != Mtls::spec_tag().0[0]);
    assert(Vers::spec_tag().0[0] != Txan::spec_tag().0[0]);
    assert(Vers::spec_tag().0[0] != Geos::spec_tag().0[0]);
    assert(Vers::spec_tag().0[0] != Geoa::spec_tag().0[0]);
    assert(Vers::spec_tag().0[0] != BoneChunk::spec_tag().0[0]);
    assert(Vers::spec_tag().0[0] != Lite::spec_tag().0[0]);
    assert(Vers::spec_tag().0[0] != Help::spec_tag().0[0]);
    assert(Vers::spec_tag().0[0] != Atch::spec_tag().0[0]);
    assert(Vers::spec_tag().0[0] != Pivt::spec_tag().0[0]);
    assert(Vers::spec_tag().0[0] != Prem::spec_tag().0[0]);
    assert(Vers::spec_tag().0[0] != Pre2::spec_tag().0[0]);
    assert(Vers::spec_tag().0[0] != Ribb::spec_tag().0[0]);
    assert(Vers::spec_tag().0[0] != Evts::spec_tag().0[0]);
    assert(Vers::spec_tag().0[0] != Cams::spec_tag().0[0]);
    assert(Vers::spec_tag().0[0] != Clid::spec_tag().0[0]);
    assert(Vers::spec_tag().0[0] != Bpos::spec_tag().0[0]);
    assert(Vers::spec_tag().0[0] != Fafx::spec_tag().0[0]);
    assert(Vers::spec_tag().0[0] != Corn::spec_tag().0[0]);
    assert(Modl::spec_tag().0[0] != Seqs::spec_tag().0[0]);
    assert(Modl::spec_tag().0[0] != Glbs::spec_tag().0[0]);
    assert(Modl::spec_tag().0[0] != Texs::spec_tag().0[0]);
    assert(Modl::spec_tag().0[0] != Snds::spec_tag().0[0]);
    assert(Modl::spec_tag().0[1] != Mtls::spec_tag().0[1]);
    assert(Modl::spec_tag().0[0] != Txan::spec_tag().0[0]);
    assert(Modl::spec_tag().0[0] != Geos::spec_tag().0[0]);
    assert(Modl::spec_tag().0[0] != Geoa::spec_tag().0[0]);
    assert(Modl::spec_tag().0[0] != BoneChunk::spec_tag().0[0]);
    assert(Modl::spec_tag().0[0] != Lite::spec_tag().0[0]);
    assert(Modl::spec_tag().0[0] != Help::spec_tag().0[0]);
    assert(Modl::spec_tag().0[0] != Atch::spec_tag().0[0]);
    assert(Modl::spec_tag().0[0] != Pivt::spec_tag().0[0]);
    assert(Modl::spec_tag().0[0] != Prem::spec_tag().0[0]);
    assert(Modl::spec_tag().0[0] != Pre2::spec_tag().0[0]);
    assert(Modl::spec_tag().0[0] != Ribb::spec_tag().0[0]);
    assert(Modl::spec_tag().0[0] != Evts::spec_tag().0[0]);
    assert(Modl::spec_tag().0[0] != Cams::spec_tag().0[0]);
    assert(Modl::spec_tag().0[0] != Clid::spec_tag().0[0]);
    assert(Modl::spec_tag().0[0] != Bpos::spec_tag().0[0]);
    assert(Modl::spec_tag().0[0] != Fafx::spec_tag().0[0]);
    assert(Modl::spec_tag().0[0] != Corn::spec_tag().0[0]);
    assert(Seqs::spec_tag().0[0] != Glbs::spec_tag().0[0]);
    assert(Seqs::spec_tag().0[0] != Texs::spec_tag().0[0]);
    assert(Seqs::spec_tag().0[1] != Snds::spec_tag().0[1]);
    assert(Seqs::spec_tag().0[0] != Mtls::spec_tag().0[0]);
    assert(Seqs::spec_tag().0[0] != Txan::spec_tag().0[0]);
    assert(Seqs::spec_tag().0[0] != Geos::spec_tag().0[0]);
    assert(Seqs::spec_tag().0[0] != Geoa::spec_tag().0[0]);
    assert(Seqs::spec_tag().0[0] != BoneChunk::spec_tag().0[0]);
    assert(Seqs::spec_tag().0[0] != Lite::spec_tag().0[0]);
    assert(Seqs::spec_tag().0[0] != Help::spec_tag().0[0]);
    assert(Seqs::spec_tag().0[0] != Atch::spec_tag().0[0]);
    assert(Seqs::spec_tag().0[0] != Pivt::spec_tag().0[0]);
    assert(Seqs::spec_tag().0[0] != Prem::spec_tag().0[0]);
    assert(Seqs::spec_tag().0[0] != Pre2::spec_tag().0[0]);
    assert(Seqs::spec_tag().0[0] != Ribb::spec_tag().0[0]);
    assert(Seqs::spec_tag().0[0] != Evts::spec_tag().0[0]);
    assert(Seqs::spec_tag().0[0] != Cams::spec_tag().0[0]);
    assert(Seqs::spec_tag().0[0] != Clid::spec_tag().0[0]);
    assert(Seqs::spec_tag().0[0] != Bpos::spec_tag().0[0]);
    assert(Seqs::spec_tag().0[0] != Fafx::spec_tag().0[0]);
    assert(Seqs::spec_tag().0[0] != Corn::spec_tag().0[0]);
    assert(Glbs::spec_tag().0[0] != Texs::spec_tag().0[0]);
    assert(Glbs::spec_tag().0[0] != Snds::spec_tag().0[0]);
    assert(Glbs::spec_tag().0[0] != Mtls::spec_tag().0[0]);
    assert(Glbs::spec_tag().0[0] != Txan::spec_tag().0[0]);
    assert(Glbs::spec_tag().0[1] != Geos::spec_tag().0[1]);
    assert(Glbs::spec_tag().0[1] != Geoa::spec_tag().0[1]);
    assert(Glbs::spec_tag().0[0] != BoneChunk::spec_tag().0[0]);
    assert(Glbs::spec_tag().0[0] != Lite::spec_tag().0[0]);
    assert(Glbs::spec_tag().0[0] != Help::spec_tag().0[0]);
    assert(Glbs::spec_tag().0[0] != Atch::spec_tag().0[0]);
    assert(Glbs::spec_tag().0[0] != Pivt::spec_tag().0[0]);
    assert(Glbs::spec_tag().0[0] != Prem::spec_tag().0[0]);
    assert(Glbs::spec_tag().0[0] != Pre2::spec_tag().0[0]);
    assert(Glbs::spec_tag().0[0] != Ribb::spec_tag().0[0]);
    assert(Glbs::spec_tag().0[0] != Evts::spec_tag().0[0]);
    assert(Glbs::spec_tag().0[0] != Cams::spec_tag().0[0]);
    assert(Glbs::spec_tag().0[0] != Clid::spec_tag().0[0]);
    assert(Glbs::spec_tag().0[0] != Bpos::spec_tag().0[0]);
    assert(Glbs::spec_tag().0[0] != Fafx::spec_tag().0[0]);
    assert(Glbs::spec_tag().0[0] != Corn::spec_tag().0[0]);
    assert(Texs::spec_tag().0[0] != Snds::spec_tag().0[0]);
    assert(Texs::spec_tag().0[0] != Mtls::spec_tag().0[0]);
    assert(Texs::spec_tag().0[1] != Txan::spec_tag().0[1]);
    assert(Texs::spec_tag().0[0] != Geos::spec_tag().0[0]);
    assert(Texs::spec_tag().0[0] != Geoa::spec_tag().0[0]);
    assert(Texs::spec_tag().0[0] != BoneChunk::spec_tag().0[0]);
    assert(Texs::spec_tag().0[0] != Lite::spec_tag().0[0]);
    assert(Texs::spec_tag().0[0] != Help::spec_tag().0[0]);
    assert(Texs::spec_tag().0[0] != Atch::spec_tag().0[0]);
    assert(Texs::spec_tag().0[0] != Pivt::spec_tag().0[0]);
    assert(Texs::spec_tag().0[0] != Prem::spec_tag().0[0]);
    assert(Texs::spec_tag().0[0] != Pre2::spec_tag().0[0]);
    assert(Texs::spec_tag().0[0] != Ribb::spec_tag().0[0]);
    assert(Texs::spec_tag().0[0] != Evts::spec_tag().0[0]);
    assert(Texs::spec_tag().0[0] != Cams::spec_tag().0[0]);
    assert(Texs::spec_tag().0[0] != Clid::spec_tag().0[0]);
    assert(Texs::spec_tag().0[0] != Bpos::spec_tag().0[0]);
    assert(Texs::spec_tag().0[0] != Fafx::spec_tag().0[0]);
    assert(Texs::spec_tag().0[0] != Corn::spec_tag().0[0]);
    assert(Snds::spec_tag().0[0] != Mtls::spec_tag().0[0]);
    assert(Snds::spec_tag().0[0] != Txan::spec_tag().0[0]);
    assert(Snds::spec_tag().0[0] != Geos::spec_tag().0[0]);
    assert(Snds::spec_tag().0[0] != Geoa::spec_tag().0[0]);
    assert(Snds::spec_tag().0[0] != BoneChunk::spec_tag().0[0]);
    assert(Snds::spec_tag().0[0] != Lite::spec_tag().0[0]);
    assert(Snds::spec_tag().0[0] != Help::spec_tag().0[0]);
    assert(Snds::spec_tag().0[0] != Atch::spec_tag().0[0]);
    assert(Snds::spec_tag().0[0] != Pivt::spec_tag().0[0]);
    assert(Snds::spec_tag().0[0] != Prem::spec_tag().0[0]);
    assert(Snds::spec_tag().0[0] != Pre2::spec_tag().0[0]);
    assert(Snds::spec_tag().0[0] != Ribb::spec_tag().0[0]);
    assert(Snds::spec_tag().0[0] != Evts::spec_tag().0[0]);
    assert(Snds::spec_tag().0[0] != Cams::spec_tag().0[0]);
    assert(Snds::spec_tag().0[0] != Clid::spec_tag().0[0]);
    assert(Snds::spec_tag().0[0] != Bpos::spec_tag().0[0]);
    assert(Snds::spec_tag().0[0] != Fafx::spec_tag().0[0]);
    assert(Snds::spec_tag().0[0] != Corn::spec_tag().0[0]);
    assert(Mtls::spec_tag().0[0] != Txan::spec_tag().0[0]);
    assert(Mtls::spec_tag().0[0] != Geos::spec_tag().0[0]);
    assert(Mtls::spec_tag().0[0] != Geoa::spec_tag().0[0]);
    assert(Mtls::spec_tag().0[0] != BoneChunk::spec_tag().0[0]);
    assert(Mtls::spec_tag().0[0] != Lite::spec_tag().0[0]);
    assert(Mtls::spec_tag().0[0] != Help::spec_tag().0[0]);
    assert(Mtls::spec_tag().0[0] != Atch::spec_tag().0[0]);
    assert(Mtls::spec_tag().0[0] != Pivt::spec_tag().0[0]);
    assert(Mtls::spec_tag().0[0] != Prem::spec_tag().0[0]);
    assert(Mtls::spec_tag().0[0] != Pre2::spec_tag().0[0]);
    assert(Mtls::spec_tag().0[0] != Ribb::spec_tag().0[0]);
    assert(Mtls::spec_tag().0[0] != Evts::spec_tag().0[0]);
    assert(Mtls::spec_tag().0[0] != Cams::spec_tag().0[0]);
    assert(Mtls::spec_tag().0[0] != Clid::spec_tag().0[0]);
    assert(Mtls::spec_tag().0[0] != Bpos::spec_tag().0[0]);
    assert(Mtls::spec_tag().0[0] != Fafx::spec_tag().0[0]);
    assert(Mtls::spec_tag().0[0] != Corn::spec_tag().0[0]);
    assert(Txan::spec_tag().0[0] != Geos::spec_tag().0[0]);
    assert(Txan::spec_tag().0[0] != Geoa::spec_tag().0[0]);
    assert(Txan::spec_tag().0[0] != BoneChunk::spec_tag().0[0]);
    assert(Txan::spec_tag().0[0] != Lite::spec_tag().0[0]);
    assert(Txan::spec_tag().0[0] != Help::spec_tag().0[0]);
    assert(Txan::spec_tag().0[0] != Atch::spec_tag().0[0]);
    assert(Txan::spec_tag().0[0] != Pivt::spec_tag().0[0]);
    assert(Txan::spec_tag().0[0] != Prem::spec_tag().0[0]);
    assert(Txan::spec_tag().0[0] != Pre2::spec_tag().0[0]);
    assert(Txan::spec_tag().0[0] != Ribb::spec_tag().0[0]);
    assert(Txan::spec_tag().0[0] != Evts::spec_tag().0[0]);
    assert(Txan::spec_tag().0[0] != Cams::spec_tag().0[0]);
    assert(Txan::spec_tag().0[0] != Clid::spec_tag().0[0]);
    assert(Txan::spec_tag().0[0] != Bpos::spec_tag().0[0]);
    assert(Txan::spec_tag().0[0] != Fafx::spec_tag().0[0]);
    assert(Txan::spec_tag().0[0] != Corn::spec_tag().0[0]);
    assert(Geos::spec_tag().0[3] != Geoa::spec_tag().0[3]);
    assert(Geos::spec_tag().0[0] != BoneChunk::spec_tag().0[0]);
    assert(Geos::spec_tag().0[0] != Lite::spec_tag().0[0]);
    assert(Geos::spec_tag().0[0] != Help::spec_tag().0[0]);
    assert(Geos::spec_tag().0[0] != Atch::spec_tag().0[0]);
    assert(Geos::spec_tag().0[0] != Pivt::spec_tag().0[0]);
    assert(Geos::spec_tag().0[0] != Prem::spec_tag().0[0]);
    assert(Geos::spec_tag().0[0] != Pre2::spec_tag().0[0]);
    assert(Geos::spec_tag().0[0] != Ribb::spec_tag().0[0]);
    assert(Geos::spec_tag().0[0] != Evts::spec_tag().0[0]);
    assert(Geos::spec_tag().0[0] != Cams::spec_tag().0[0]);
    assert(Geos::spec_tag().0[0] != Clid::spec_tag().0[0]);
    assert(Geos::spec_tag().0[0] != Bpos::spec_tag().0[0]);
    assert(Geos::spec_tag().0[0] != Fafx::spec_tag().0[0]);
    assert(Geos::spec_tag().0[0] != Corn::spec_tag().0[0]);
    assert(Geoa::spec_tag().0[0] != BoneChunk::spec_tag().0[0]);
    assert(Geoa::spec_tag().0[0] != Lite::spec_tag().0[0]);
    assert(Geoa::spec_tag().0[0] != Help::spec_tag().0[0]);
    assert(Geoa::spec_tag().0[0] != Atch::spec_tag().0[0]);
    assert(Geoa::spec_tag().0[0] != Pivt::spec_tag().0[0]);
    assert(Geoa::spec_tag().0[0] != Prem::spec_tag().0[0]);
    assert(Geoa::spec_tag().0[0] != Pre2::spec_tag().0[0]);
    assert(Geoa::spec_tag().0[0] != Ribb::spec_tag().0[0]);
    assert(Geoa::spec_tag().0[0] != Evts::spec_tag().0[0]);
    assert(Geoa::spec_tag().0[0] != Cams::spec_tag().0[0]);
    assert(Geoa::spec_tag().0[0] != Clid::spec_tag().0[0]);
    assert(Geoa::spec_tag().0[0] != Bpos::spec_tag().0[0]);
    assert(Geoa::spec_tag().0[0] != Fafx::spec_tag().0[0]);
    assert(Geoa::spec_tag().0[0] != Corn::spec_tag().0[0]);
    assert(BoneChunk::spec_tag().0[0] != Lite::spec_tag().0[0]);
    assert(BoneChunk::spec_tag().0[0] != Help::spec_tag().0[0]);
    assert(BoneChunk::spec_tag().0[0] != Atch::spec_tag().0[0]);
    assert(BoneChunk::spec_tag().0[0] != Pivt::spec_tag().0[0]);
    assert(BoneChunk::spec_tag().0[0] != Prem::spec_tag().0[0]);
    assert(BoneChunk::spec_tag().0[0] != Pre2::spec_tag().0[0]);
    assert(BoneChunk::spec_tag().0[0] != Ribb::spec_tag().0[0]);
    assert(BoneChunk::spec_tag().0[0] != Evts::spec_tag().0[0]);
    assert(BoneChunk::spec_tag().0[0] != Cams::spec_tag().0[0]);
    assert(BoneChunk::spec_tag().0[0] != Clid::spec_tag().0[0]);
    assert(BoneChunk::spec_tag().0[1] != Bpos::spec_tag().0[1]);
    assert(BoneChunk::spec_tag().0[0] != Fafx::spec_tag().0[0]);
    assert(BoneChunk::spec_tag().0[0] != Corn::spec_tag().0[0]);
    assert(Lite::spec_tag().0[0] != Help::spec_tag().0[0]);
    assert(Lite::spec_tag().0[0] != Atch::spec_tag().0[0]);
    assert(Lite::spec_tag().0[0] != Pivt::spec_tag().0[0]);
    assert(Lite::spec_tag().0[0] != Prem::spec_tag().0[0]);
    assert(Lite::spec_tag().0[0] != Pre2::spec_tag().0[0]);
    assert(Lite::spec_tag().0[0] != Ribb::spec_tag().0[0]);
    assert(Lite::spec_tag().0[0] != Evts::spec_tag().0[0]);
    assert(Lite::spec_tag().0[0] != Cams::spec_tag().0[0]);
    assert(Lite::spec_tag().0[0] != Clid::spec_tag().0[0]);
    assert(Lite::spec_tag().0[0] != Bpos::spec_tag().0[0]);
    assert(Lite::spec_tag().0[0] != Fafx::spec_tag().0[0]);
    assert(Lite::spec_tag().0[0] != Corn::spec_tag().0[0]);
    assert(Help::spec_tag().0[0] != Atch::spec_tag().0[0]);
    assert(Help::spec_tag().0[0] != Pivt::spec_tag().0[0]);
    assert(Help::spec_tag().0[0] != Prem::spec_tag().0[0]);
    assert(Help::spec_tag().0[0] != Pre2::spec_tag().0[0]);
    assert(Help::spec_tag().0[0] != Ribb::spec_tag().0[0]);
    assert(Help::spec_tag().0[0] != Evts::spec_tag().0[0]);
    assert(Help::spec_tag().0[0] != Cams::spec_tag().0[0]);
    assert(Help::spec_tag().0[0] != Clid::spec_tag().0[0]);
    assert(Help::spec_tag().0[0] != Bpos::spec_tag().0[0]);
    assert(Help::spec_tag().0[0] != Fafx::spec_tag().0[0]);
    assert(Help::spec_tag().0[0] != Corn::spec_tag().0[0]);
    assert(Atch::spec_tag().0[0] != Pivt::spec_tag().0[0]);
    assert(Atch::spec_tag().0[0] != Prem::spec_tag().0[0]);
    assert(Atch::spec_tag().0[0] != Pre2::spec_tag().0[0]);
    assert(Atch::spec_tag().0[0] != Ribb::spec_tag().0[0]);
    assert(Atch::spec_tag().0[0] != Evts::spec_tag().0[0]);
    assert(Atch::spec_tag().0[0] != Cams::spec_tag().0[0]);
    assert(Atch::spec_tag().0[0] != Clid::spec_tag().0[0]);
    assert(Atch::spec_tag().0[0] != Bpos::spec_tag().0[0]);
    assert(Atch::spec_tag().0[0] != Fafx::spec_tag().0[0]);
    assert(Atch::spec_tag().0[0] != Corn::spec_tag().0[0]);
    assert(Pivt::spec_tag().0[1] != Prem::spec_tag().0[1]);
    assert(Pivt::spec_tag().0[1] != Pre2::spec_tag().0[1]);
    assert(Pivt::spec_tag().0[0] != Ribb::spec_tag().0[0]);
    assert(Pivt::spec_tag().0[0] != Evts::spec_tag().0[0]);
    assert(Pivt::spec_tag().0[0] != Cams::spec_tag().0[0]);
    assert(Pivt::spec_tag().0[0] != Clid::spec_tag().0[0]);
    assert(Pivt::spec_tag().0[0] != Bpos::spec_tag().0[0]);
    assert(Pivt::spec_tag().0[0] != Fafx::spec_tag().0[0]);
    assert(Pivt::spec_tag().0[0] != Corn::spec_tag().0[0]);
    assert(Prem::spec_tag().0[3] != Pre2::spec_tag().0[3]);
    assert(Prem::spec_tag().0[0] != Ribb::spec_tag().0[0]);
    assert(Prem::spec_tag().0[0] != Evts::spec_tag().0[0]);
    assert(Prem::spec_tag().0[0] != Cams::spec_tag().0[0]);
    assert(Prem::spec_tag().0[0] != Clid::spec_tag().0[0]);
    assert(Prem::spec_tag().0[0] != Bpos::spec_tag().0[0]);
    assert(Prem::spec_tag().0[0] != Fafx::spec_tag().0[0]);
    assert(Prem::spec_tag().0[0] != Corn::spec_tag().0[0]);
    assert(Pre2::spec_tag().0[0] != Ribb::spec_tag().0[0]);
    assert(Pre2::spec_tag().0[0] != Evts::spec_tag().0[0]);
    assert(Pre2::spec_tag().0[0] != Cams::spec_tag().0[0]);
    assert(Pre2::spec_tag().0[0] != Clid::spec_tag().0[0]);
    assert(Pre2::spec_tag().0[0] != Bpos::spec_tag().0[0]);
    assert(Pre2::spec_tag().0[0] != Fafx::spec_tag().0[0]);
    assert(Pre2::spec_tag().0[0] != Corn::spec_tag().0[0]);
    assert(Ribb::spec_tag().0[0] != Evts::spec_tag().0[0]);
    assert(Ribb::spec_tag().0[0] != Cams::spec_tag().0[0]);
    assert(Ribb::spec_tag().0[0] != Clid::spec_tag().0[0]);
    assert(Ribb::spec_tag().0[0] != Bpos::spec_tag().0[0]);
    assert(Ribb::spec_tag().0[0] != Fafx::spec_tag().0[0]);
    assert(Ribb::spec_tag().0[0] != Corn::spec_tag().0[0]);
    assert(Evts::spec_tag().0[0] != Cams::spec_tag().0[0]);
    assert(Evts::spec_tag().0[0] != Clid::spec_tag().0[0]);
    assert(Evts::spec_tag().0[0] != Bpos::spec_tag().0[0]);
    assert(Evts::spec_tag().0[0] != Fafx::spec_tag().0[0]);
    assert(Evts::spec_tag().0[0] != Corn::spec_tag().0[0]);
    assert(Cams::spec_tag().0[1] != Clid::spec_tag().0[1]);
    assert(Cams::spec_tag().0[0] != Bpos::spec_tag().0[0]);
    assert(Cams::spec_tag().0[0] != Fafx::spec_tag().0[0]);
    assert(Cams::spec_tag().0[1] != Corn::spec_tag().0[1]);
    assert(Clid::spec_tag().0[0] != Bpos::spec_tag().0[0]);
    assert(Clid::spec_tag().0[0] != Fafx::spec_tag().0[0]);
    assert(Clid::spec_tag().0[1] != Corn::spec_tag().0[1]);
    assert(Bpos::spec_tag().0[0] != Fafx::spec_tag().0[0]);
    assert(Bpos::spec_tag().0[0] != Corn::spec_tag().0[0]);
    assert(Fafx::spec_tag().0[0] != Corn::spec_tag().0[0]);
}

/// The chunk of `m` under the tag is encoded to a span that is read into `acc`
/// as that chunk: the span is announced by its header, which has the tag, and
/// the chunk is parsed from the span with nothing left.
pub open spec fn refilled(acc: MdlxModel, m: MdlxModel, version: Option<u32>, tag: Tag) -> bool {
    let span = m.slot_wire(tag);
    &&& m.slot_error(tag) is None
    &&& framed_as(tag, span)
    &&& Mdlx::spec_chunk(acc, version, Header::spec_parse(None, span)->Ok_0.1, span) == Ok::<
        _,
        MdxParseError,
    >((Seq::<u8>::empty(), Mdlx::refill(acc, m, tag)))
}

/// The bytes of the chunk `vers` of `m` are read into `acc` as that chunk.
#[verifier::rlimit(50)]
proof fn lemma_refill_vers(acc: MdlxModel, m: MdlxModel, version: Option<u32>, tag: Tag)
    requires
        tag == Vers::spec_tag(),
        Mdlx::slot_reparses(m, tag, spec_version(acc, version)),
    ensures
        refilled(acc, m, version, tag),
{
}

/// The bytes of the chunk `modl` of `m` are read into `acc` as that chunk.
#[verifier::rlimit(50)]
proof fn lemma_refill_modl(acc: MdlxModel, m: MdlxModel, version: Option<u32>, tag: Tag)
    requires
        tag == Modl::spec_tag(),
        tag != Vers::spec_tag(),
        Mdlx::slot_reparses(m, tag, spec_version(acc, version)),
    ensures
        refilled(acc, m, version, tag),
{
}

/// The bytes of the chunk `seqs` of `m` are read into `acc` as that chunk.
#[verifier::rlimit(50)]
proof fn lemma_refill_seqs(acc: MdlxModel, m: MdlxModel, version: Option<u32>, tag: Tag)
    requires
        tag == Seqs::spec_tag(),
        tag != Vers::spec_tag(),
        tag != Modl::spec_tag(),
        Mdlx::slot_reparses(m, tag, spec_version(acc, version)),
    ensures
        refilled(acc, m, version, tag),
{
}

/// The bytes of the chunk `glbs` of `m` are read into `acc` as that chunk.
#[verifier::rlimit(50)]
proof fn lemma_refill_glbs(acc: MdlxModel, m: MdlxModel, version: Option<u32>, tag: Tag)
    requires
        tag == Glbs::spec_tag(),
        tag != Vers::spec_tag(),
        tag != Modl::spec_tag(),
        tag != Seqs::spec_tag(),
        Mdlx::slot_reparses(m, tag, spec_version(acc, version)),
    ensures
        refilled(acc, m, version, tag),
{
}

/// The bytes of the chunk `texs` of `m` are read into `acc` as that chunk.
#[verifier::rlimit(50)]
proof fn lemma_refill_texs(acc: MdlxModel, m: MdlxModel, version: Option<u32>, tag: Tag)
    requires
        tag == Texs::spec_tag(),
        tag != Vers::spec_tag(),
        tag != Modl::spec_tag(),
        tag != Seqs::spec_tag(),
        tag != Glbs::spec_tag(),
        Mdlx::slot_reparses(m, tag, spec_version(acc, version)),
    ensures
        refilled(acc, m, version, tag),
{
}

/// The bytes of the chunk `snds` of `m` are read into `acc` as that chunk.
#[verifier::rlimit(50)]
proof fn lemma_refill_snds(acc: MdlxModel, m: MdlxModel, version: Option<u32>, tag: Tag)
    requires
        tag == Snds::spec_tag(),
        tag != Vers::spec_tag(),
        tag != Modl::spec_tag(),
        tag != Seqs::spec_tag(),
        tag != Glbs::spec_tag(),
        tag != Texs::spec_tag(),
        Mdlx::slot_reparses(m, tag, spec_version(acc, version)),
    ensures
        refilled(acc, m, version, tag),
{
}

/// The bytes of the chunk `mtls` of `m` are read into `acc` as that chunk.
#[verifier::rlimit(50)]
proof fn lemma_refill_mtls(acc: MdlxModel, m: MdlxModel, version: Option<u32>, tag: Tag)
    requires
        tag == Mtls::spec_tag(),
        tag != Vers::spec_tag(),
        tag != Modl::spec_tag(),
        tag != Seqs::spec_tag(),
        tag != Glbs::spec_tag(),
        tag != Texs::spec_tag(),
        tag != Snds::spec_tag(),
        Mdlx::slot_reparses(m, tag, spec_version(acc, version)),
    ensures
        refilled(acc, m, version, tag),
{
}

/// The bytes of the chunk `txan` of `m` are read into `acc` as that chunk.
#[verifier::rlimit(50)]
proof fn lemma_refill_txan(acc: MdlxModel, m: MdlxModel, version: Option<u32>, tag: Tag)
    requires
        tag == Txan::spec_tag(),
        tag != Vers::spec_tag(),
        tag != Modl::spec_tag(),
        tag != Seqs::spec_tag(),
        tag != Glbs::spec_tag(),
        tag != Texs::spec_tag(),
        tag != Snds::spec_tag(),
        tag != Mtls::spec_tag(),
        Mdlx::slot_reparses(m, tag, spec_version(acc, version)),
    ensures
        refilled(acc, m, version, tag),
{
}

/// The bytes of the chunk `geos` of `m` are read into `acc` as that chunk.
#[verifier::rlimit(50)]
proof fn lemma_refill_geos(acc: MdlxModel, m: MdlxModel, version: Option<u32>, tag: Tag)
    requires
        tag == Geos::spec_tag(),
        tag != Vers::spec_tag(),
        tag != Modl::spec_tag(),
        tag != Seqs::spec_tag(),
        tag != Glbs::spec_tag(),
        tag != Texs::spec_tag(),
        tag != Snds::spec_tag(),
        tag != Mtls::spec_tag(),
        tag != Txan::spec_tag(),
        Mdlx::slot_reparses(m, tag, spec_version(acc, version)),
    ensures
        refilled(acc, m, version, tag),
{
}

/// The bytes of the chunk `geoa` of `m` are read into `acc` as that chunk.
#[verifier::rlimit(50)]
proof fn lemma_refill_geoa(acc: MdlxModel, m: MdlxModel, version: Option<u32>, tag: Tag)
    requires
        tag == Geoa::spec_tag(),
        tag != Vers::spec_tag(),
        tag != Modl::spec_tag(),
        tag != Seqs::spec_tag(),
        tag != Glbs::spec_tag(),
        tag != Texs::spec_tag(),
        tag != Snds::spec_tag(),
        tag != Mtls::spec_tag(),
        tag != Txan::spec_tag(),
        tag != Geos::spec_tag(),
        Mdlx::slot_reparses(m, tag, spec_version(acc, version)),
    ensures
        refilled(acc, m, version, tag),
{
}

/// The bytes of the chunk `bone` of `m` are read into `acc` as that chunk.
#[verifier::rlimit(50)]
proof fn lemma_refill_bone(acc: MdlxModel, m: MdlxModel, version: Option<u32>, tag: Tag)
    requires
        tag == BoneChunk::spec_tag(),
        tag != Vers::spec_tag(),
        tag != Modl::spec_tag(),
        tag != Seqs::spec_tag(),
        tag != Glbs::spec_tag(),
        tag != Texs::spec_tag(),
        tag != Snds::spec_tag(),
        tag != Mtls::spec_tag(),
        tag != Txan::spec_tag(),
        tag != Geos::spec_tag(),
        tag != Geoa::spec_tag(),
        Mdlx::slot_reparses(m, tag, spec_version(acc, version)),
    ensures
        refilled(acc, m, version, tag),
{
}

/// The bytes of the chunk `lite` of `m` are read into `acc` as that chunk.
#[verifier::rlimit(50)]
proof fn lemma_refill_lite(acc: MdlxModel, m: MdlxModel, version: Option<u32>, tag: Tag)
    requires
        tag == Lite::spec_tag(),
        tag != Vers::spec_tag(),
        tag != Modl::spec_tag(),
        tag != Seqs::spec_tag(),
        tag != Glbs::spec_tag(),
        tag != Texs::spec_tag(),
        tag != Snds::spec_tag(),
        tag != Mtls::spec_tag(),
        tag != Txan::spec_tag(),
        tag != Geos::spec_tag(),
        tag != Geoa::spec_tag(),
        tag != BoneChunk::spec_tag(),
        Mdlx::slot_reparses(m, tag, spec_version(acc, version)),
    ensures
        refilled(acc, m, version, tag),
{
}

/// The bytes of the chunk `help` of `m` are read into `acc` as that chunk.
#[verifier::rlimit(50)]
proof fn lemma_refill_help(acc: MdlxModel, m: MdlxModel, version: Option<u32>, tag: Tag)
    requires
        tag == Help::spec_tag(),
        tag != Vers::spec_tag(),
        tag != Modl::spec_tag(),
        tag != Seqs::spec_tag(),
        tag != Glbs::spec_tag(),
        tag != Texs::spec_tag(),
        tag != Snds::spec_tag(),
        tag != Mtls::spec_tag(),
        tag != Txan::spec_tag(),
        tag != Geos::spec_tag(),
        tag != Geoa::spec_tag(),
        tag != BoneChunk::spec_tag(),
        tag != Lite::spec_tag(),
        Mdlx::slot_reparses(m, tag, spec_version(acc, version)),
    ensures
        refilled(acc, m, version, tag),
{
}

/// The bytes of the chunk `atch` of `m` are read into `acc` as that chunk.
#[verifier::rlimit(50)]
proof fn lemma_refill_atch(acc: MdlxModel, m: MdlxModel, version: Option<u32>, tag: Tag)
    requires
        tag == Atch::spec_tag(),
        tag != Vers::spec_tag(),
        tag != Modl::spec_tag(),
        tag != Seqs::spec_tag(),
        tag != Glbs::spec_tag(),
        tag != Texs::spec_tag(),
        tag != Snds::spec_tag(),
        tag != Mtls::spec_tag(),
        tag != Txan::spec_tag(),
        tag != Geos::spec_tag(),
        tag != Geoa::spec_tag(),
        tag != BoneChunk::spec_tag(),
        tag != Lite::spec_tag(),
        tag != Help::spec_tag(),
        Mdlx::slot_reparses(m, tag, spec_version(acc, version)),
    ensures
        refilled(acc, m, version, tag),
{
}

/// The bytes of the chunk `pivt` of `m` are read into `acc` as that chunk.
#[verifier::rlimit(50)]
proof fn lemma_refill_pivt(acc: MdlxModel, m: MdlxModel, version: Option<u32>, tag: Tag)
    requires
        tag == Pivt::spec_tag(),
        tag != Vers::spec_tag(),
        tag != Modl::spec_tag(),
        tag != Seqs::spec_tag(),
        tag != Glbs::spec_tag(),
        tag != Texs::spec_tag(),
        tag != Snds::spec_tag(),
        tag != Mtls::spec_tag(),
        tag != Txan::spec_tag(),
        tag != Geos::spec_tag(),
        tag != Geoa::spec_tag(),
        tag != BoneChunk::spec_tag(),
        tag != Lite::spec_tag(),
        tag != Help::spec_tag(),
        tag != Atch::spec_tag(),
        Mdlx::slot_reparses(m, tag, spec_version(acc, version)),
    ensures
        refilled(acc, m, version, tag),
{
}

/// The bytes of the chunk `prem` of `m` are read into `acc` as that chunk.
#[verifier::rlimit(50)]
proof fn lemma_refill_prem(acc: MdlxModel, m: MdlxModel, version: Option<u32>, tag: Tag)
    requires
        tag == Prem::spec_tag(),
        tag != Vers::spec_tag(),
        tag != Modl::spec_tag(),
        tag != Seqs::spec_tag(),
        tag != Glbs::spec_tag(),
        tag != Texs::spec_tag(),
        tag != Snds::spec_tag(),
        tag != Mtls::spec_tag(),
        tag != Txan::spec_tag(),
        tag != Geos::spec_tag(),
        tag != Geoa::spec_tag(),
        tag != BoneChunk::spec_tag(),
        tag != Lite::spec_tag(),
        tag != Help::spec_tag(),
        tag != Atch::spec_tag(),
        tag != Pivt::spec_tag(),
        Mdlx::slot_reparses(m, tag, spec_version(acc, version)),
    ensures
        refilled(acc, m, version, tag),
{
}

/// The bytes of the chunk `pre2` of `m` are read into `acc` as that chunk.
#[verifier::rlimit(50)]
proof fn lemma_refill_pre2(acc: MdlxModel, m: MdlxModel, version: Option<u32>, tag: Tag)
    requires
        tag == Pre2::spec_tag(),
        tag != Vers::spec_tag(),
        tag != Modl::spec_tag(),
        tag != Seqs::spec_tag(),
        tag != Glbs::spec_tag(),
        tag != Texs::spec_tag(),
        tag != Snds::spec_tag(),
        tag != Mtls::spec_tag(),
        tag != Txan::spec_tag(),
        tag != Geos::spec_tag(),
        tag != Geoa::spec_tag(),
        tag != BoneChunk::spec_tag(),
        tag != Lite::spec_tag(),
        tag != Help::spec_tag(),
        tag != Atch::spec_tag(),
        tag != Pivt::spec_tag(),
        tag != Prem::spec_tag(),
        Mdlx::slot_reparses(m, tag, spec_version(acc, version)),
    ensures
        refilled(acc, m, version, tag),
{
}

/// The bytes of the chunk `ribb` of `m` are read into `acc` as that chunk.
#[verifier::rlimit(50)]
proof fn lemma_refill_ribb(acc: MdlxModel, m: MdlxModel, version: Option<u32>, tag: Tag)
    requires
        tag == Ribb::spec_tag(),
        tag != Vers::spec_tag(),
        tag != Modl::spec_tag(),
        tag != Seqs::spec_tag(),
        tag != Glbs::spec_tag(),
        tag != Texs::spec_tag(),
        tag != Snds::spec_tag(),
        tag != Mtls::spec_tag(),
        tag != Txan::spec_tag(),
        tag != Geos::spec_tag(),
        tag != Geoa::spec_tag(),
        tag != BoneChunk::spec_tag(),
        tag != Lite::spec_tag(),
        tag != Help::spec_tag(),
        tag != Atch::spec_tag(),
        tag != Pivt::spec_tag(),
        tag != Prem::spec_tag(),
        tag != Pre2::spec_tag(),
        Mdlx::slot_reparses(m, tag, spec_version(acc, version)),
    ensures
        refilled(acc, m, version, tag),
{
}

/// The bytes of the chunk `evts` of `m` are read into `acc` as that chunk.
#[verifier::rlimit(50)]
proof fn lemma_refill_evts(acc: MdlxModel, m: MdlxModel, version: Option<u32>, tag: Tag)
    requires
        tag == Evts::spec_tag(),
        tag != Vers::spec_tag(),
        tag != Modl::spec_tag(),
        tag != Seqs::spec_tag(),
        tag != Glbs::spec_tag(),
        tag != Texs::spec_tag(),
        tag != Snds::spec_tag(),
        tag != Mtls::spec_tag(),
        tag != Txan::spec_tag(),
        tag != Geos::spec_tag(),
        tag != Geoa::spec_tag(),
        tag != BoneChunk::spec_tag(),
        tag != Lite::spec_tag(),
        tag != Help::spec_tag(),
        tag != Atch::spec_tag(),
        tag != Pivt::spec_tag(),
        tag != Prem::spec_tag(),
        tag != Pre2::spec_tag(),
        tag != Ribb::spec_tag(),
        Mdlx::slot_reparses(m, tag, spec_version(acc, version)),
    ensures
        refilled(acc, m, version, tag),
{
}

/// The bytes of the chunk `cams` of `m` are read into `acc` as that chunk.
#[verifier::rlimit(50)]
proof fn lemma_refill_cams(acc: MdlxModel, m: MdlxModel, version: Option<u32>, tag: Tag)
    requires
        tag == Cams::spec_tag(),
        tag != Vers::spec_tag(),
        tag != Modl::spec_tag(),
        tag != Seqs::spec_tag(),
        tag != Glbs::spec_tag(),
        tag != Texs::spec_tag(),
        tag != Snds::spec_tag(),
        tag != Mtls::spec_tag(),
        tag != Txan::spec_tag(),
        tag != Geos::spec_tag(),
        tag != Geoa::spec_tag(),
        tag != BoneChunk::spec_tag(),
        tag != Lite::spec_tag(),
        tag != Help::spec_tag(),
        tag != Atch::spec_tag(),
        tag != Pivt::spec_tag(),
        tag != Prem::spec_tag(),
        tag != Pre2::spec_tag(),
        tag != Ribb::spec_tag(),
        tag != Evts::spec_tag(),
        Mdlx::slot_reparses(m, tag, spec_version(acc, version)),
    ensures
        refilled(acc, m, version, tag),
{
}

/// The bytes of the chunk `clid` of `m` are read into `acc` as that chunk.
#[verifier::rlimit(50)]
proof fn lemma_refill_clid(acc: MdlxModel, m: MdlxModel, version: Option<u32>, tag: Tag)
    requires
        tag == Clid::spec_tag(),
        tag != Vers::spec_tag(),
        tag != Modl::spec_tag(),
        tag != Seqs::spec_tag(),
        tag != Glbs::spec_tag(),
        tag != Texs::spec_tag(),
        tag != Snds::spec_tag(),
        tag != Mtls::spec_tag(),
        tag != Txan::spec_tag(),
        tag != Geos::spec_tag(),
        tag != Geoa::spec_tag(),
        tag != BoneChunk::spec_tag(),
        tag != Lite::spec_tag(),
        tag != Help::spec_tag(),
        tag != Atch::spec_tag(),
        tag != Pivt::spec_tag(),
        tag != Prem::spec_tag(),
        tag != Pre2::spec_tag(),
        tag != Ribb::spec_tag(),
        tag != Evts::spec_tag(),
        tag != Cams::spec_tag(),
        Mdlx::slot_reparses(m, tag, spec_version(acc, version)),
    ensures
        refilled(acc, m, version, tag),
{
}

/// The bytes of the chunk `bpos` of `m` are read into `acc` as that chunk.
#[verifier::rlimit(50)]
proof fn lemma_refill_bpos(acc: MdlxModel, m: MdlxModel, version: Option<u32>, tag: Tag)
    requires
        tag == Bpos::spec_tag(),
        tag != Vers::spec_tag(),
        tag != Modl::spec_tag(),
        tag != Seqs::spec_tag(),
        tag != Glbs::spec_tag(),
        tag != Texs::spec_tag(),
        tag != Snds::spec_tag(),
        tag != Mtls::spec_tag(),
        tag != Txan::spec_tag(),
        tag != Geos::spec_tag(),
        tag != Geoa::spec_tag(),
        tag != BoneChunk::spec_tag(),
        tag != Lite::spec_tag(),
        tag != Help::spec_tag(),
        tag != Atch::spec_tag(),
        tag != Pivt::spec_tag(),
        tag != Prem::spec_tag(),
        tag != Pre2::spec_tag(),
        tag != Ribb::spec_tag(),
        tag != Evts::spec_tag(),
        tag != Cams::spec_tag(),
        tag != Clid::spec_tag(),
        Mdlx::slot_reparses(m, tag, spec_version(acc, version)),
    ensures
        refilled(acc, m, version, tag),
{
}

/// The bytes of the chunk `fafx` of `m` are read into `acc` as that chunk.
#[verifier::rlimit(50)]
proof fn lemma_refill_fafx(acc: MdlxModel, m: MdlxModel, version: Option<u32>, tag: Tag)
    requires
        tag == Fafx::spec_tag(),
        tag != Vers::spec_tag(),
        tag != Modl::spec_tag(),
        tag != Seqs::spec_tag(),
        tag != Glbs::spec_tag(),
        tag != Texs::spec_tag(),
        tag != Snds::spec_tag(),
        tag != Mtls::spec_tag(),
        tag != Txan::spec_tag(),
        tag != Geos::spec_tag(),
        tag != Geoa::spec_tag(),
        tag != BoneChunk::spec_tag(),
        tag != Lite::spec_tag(),
        tag != Help::spec_tag(),
        tag != Atch::spec_tag(),
        tag != Pivt::spec_tag(),
        tag != Prem::spec_tag(),
        tag != Pre2::spec_tag(),
        tag != Ribb::spec_tag(),
        tag != Evts::spec_tag(),
        tag != Cams::spec_tag(),
        tag != Clid::spec_tag(),
        tag != Bpos::spec_tag(),
        Mdlx::slot_reparses(m, tag, spec_version(acc, version)),
    ensures
        refilled(acc, m, version, tag),
{
}

/// The bytes of the chunk `corn` of `m` are read into `acc` as that chunk.
#[verifier::rlimit(50)]
proof fn lemma_refill_corn(acc: MdlxModel, m: MdlxModel, version: Option<u32>, tag: Tag)
    requires
        tag == Corn::spec_tag(),
        tag != Vers::spec_tag(),
        tag != Modl::spec_tag(),
        tag != Seqs::spec_tag(),
        tag != Glbs::spec_tag(),
        tag != Texs::spec_tag(),
        tag != Snds::spec_tag(),
        tag != Mtls::spec_tag(),
        tag != Txan::spec_tag(),
        tag != Geos::spec_tag(),
        tag != Geoa::spec_tag(),
        tag != BoneChunk::spec_tag(),
        tag != Lite::spec_tag(),
        tag != Help::spec_tag(),
        tag != Atch::spec_tag(),
        tag != Pivt::spec_tag(),
        tag != Prem::spec_tag(),
        tag != Pre2::spec_tag(),
        tag != Ribb::spec_tag(),
        tag != Evts::spec_tag(),
        tag != Cams::spec_tag(),
        tag != Clid::spec_tag(),
        tag != Bpos::spec_tag(),
        tag != Fafx::spec_tag(),
        Mdlx::slot_reparses(m, tag, spec_version(acc, version)),
    ensures
        refilled(acc, m, version, tag),
{
}

impl Mdlx {
    /// The chunk of `m` under the tag is one of the model, is present and is
    /// well formed at the version.
    pub open spec fn slot_well_formed(m: MdlxModel, tag: Tag, version: Option<u32>) -> bool {
        if tag == Vers::spec_tag() {
            m.vers is Some && Vers::chunk_well_formed(m.vers->0, version)
        } else if tag == Modl::spec_tag() {
            m.modl is Some && Modl::chunk_well_formed(m.modl->0, version)
        } else if tag == Seqs::spec_tag() {
            m.seqs is Some && Seqs::chunk_well_formed(m.seqs->0, version)
        } else if tag == Glbs::spec_tag() {
            m.glbs is Some && Glbs::chunk_well_formed(m.glbs->0, version)
        } else if tag == Texs::spec_tag() {
            m.texs is Some && Texs::chunk_well_formed(m.texs->0, version)
        } else if tag == Snds::spec_tag() {
            m.snds is Some && Snds::chunk_well_formed(m.snds->0, version)
        } else if tag == Mtls::spec_tag() {
            m.mtls is Some && Mtls::chunk_well_formed(m.mtls->0, version)
        } else if tag == Txan::spec_tag() {
            m.txan is Some && Txan::chunk_well_formed(m.txan->0, version)
        } else if tag == Geos::spec_tag() {
            m.geos is Some && Geos::chunk_well_formed(m.geos->0, version)
        } else if tag == Geoa::spec_tag() {
            m.geoa is Some && Geoa::chunk_well_formed(m.geoa->0, version)
        } else if tag == BoneChunk::spec_tag() {
            m.bone is Some && BoneChunk::chunk_well_formed(m.bone->0, version)
        } else if tag == Lite::spec_tag() {
            m.lite is Some && Lite::chunk_well_formed(m.lite->0, version)
        } else if tag == Help::spec_tag() {
            m.help is Some && Help::chunk_well_formed(m.help->0, version)
        } else if tag == Atch::spec_tag() {
            m.atch is Some && Atch::chunk_well_formed(m.atch->0, version)
        } else if tag == Pivt::spec_tag() {
            m.pivt is Some && Pivt::chunk_well_formed(m.pivt->0, version)
        } else if tag == Prem::spec_tag() {
            m.prem is Some && Prem::chunk_well_formed(m.prem->0, version)
        } else if tag == Pre2::spec_tag() {
            m.pre2 is Some && Pre2::chunk_well_formed(m.pre2->0, version)
        } else if tag == Ribb::spec_tag() {
            m.ribb is Some && Ribb::chunk_well_formed(m.ribb->0, version)
        } else if tag == Evts::spec_tag() {
            m.evts is Some && Evts::chunk_well_formed(m.evts->0, version)
        } else if tag == Cams::spec_tag() {
            m.cams is Some && Cams::chunk_well_formed(m.cams->0, version)
        } else if tag == Clid::spec_tag() {
            m.clid is Some && Clid::chunk_well_formed(m.clid->0, version)
        } else if tag == Bpos::spec_tag() {
            m.bpos is Some && Bpos::chunk_well_formed(m.bpos->0, version)
        } else if tag == Fafx::spec_tag() {
            m.fafx is Some && Fafx::chunk_well_formed(m.fafx->0, version)
        } else if tag == Corn::spec_tag() {
            m.corn is Some && Corn::chunk_well_formed(m.corn->0, version)
        } else {
            false
        }
    }

    /// `acc` with the chunk of `m` under the tag, and with the tag recorded.
    pub open spec fn refill(acc: MdlxModel, m: MdlxModel, tag: Tag) -> MdlxModel {
        if tag == Vers::spec_tag() {
            MdlxModel {
                vers: m.vers,
                modl: acc.modl,
                seqs: acc.seqs,
                glbs: acc.glbs,
                texs: acc.texs,
                snds: acc.snds,
                mtls: acc.mtls,
                txan: acc.txan,
                geos: acc.geos,
                geoa: acc.geoa,
                bone: acc.bone,
                lite: acc.lite,
                help: acc.help,
                atch: acc.atch,
                pivt: acc.pivt,
                prem: acc.prem,
                pre2: acc.pre2,
                ribb: acc.ribb,
                evts: acc.evts,
                cams: acc.cams,
                clid: acc.clid,
                bpos: acc.bpos,
                fafx: acc.fafx,
                corn: acc.corn,
                ordered: Some(acc.order().push(tag)),
            }
        } else if tag == Modl::spec_tag() {
            MdlxModel {
                vers: acc.vers,
                modl: m.modl,
                seqs: acc.seqs,
                glbs: acc.glbs,
                texs: acc.texs,
                snds: acc.snds,
                mtls: acc.mtls,
                txan: acc.txan,
                geos: acc.geos,
                geoa: acc.geoa,
                bone: acc.bone,
                lite: acc.lite,
                help: acc.help,
                atch: acc.atch,
                pivt: acc.pivt,
                prem: acc.prem,
                pre2: acc.pre2,
                ribb: acc.ribb,
                evts: acc.evts,
                cams: acc.cams,
                clid: acc.clid,
                bpos: acc.bpos,
                fafx: acc.fafx,
                corn: acc.corn,
                ordered: Some(acc.order().push(tag)),
            }
        } else if tag == Seqs::spec_tag() {
            MdlxModel {
                vers: acc.vers,
                modl: acc.modl,
                seqs: m.seqs,
                glbs: acc.glbs,
                texs: acc.texs,
                snds: acc.snds,
                mtls: acc.mtls,
                txan: acc.txan,
                geos: acc.geos,
                geoa: acc.geoa,
                bone: acc.bone,
                lite: acc.lite,
                help: acc.help,
                atch: acc.atch,
                pivt: acc.pivt,
                prem: acc.prem,
                pre2: acc.pre2,
                ribb: acc.ribb,
                evts: acc.evts,
                cams: acc.cams,
                clid: acc.clid,
                bpos: acc.bpos,
                fafx: acc.fafx,
                corn: acc.corn,
                ordered: Some(acc.order().push(tag)),
            }
        } else if tag == Glbs::spec_tag() {
            MdlxModel {
                vers: acc.vers,
                modl: acc.modl,
                seqs: acc.seqs,
                glbs: m.glbs,
                texs: acc.texs,
                snds: acc.snds,
                mtls: acc.mtls,
                txan: acc.txan,
                geos: acc.geos,
                geoa: acc.geoa,
                bone: acc.bone,
                lite: acc.lite,
                help: acc.help,
                atch: acc.atch,
                pivt: acc.pivt,
                prem: acc.prem,
                pre2: acc.pre2,
                ribb: acc.ribb,
                evts: acc.evts,
                cams: acc.cams,
                clid: acc.clid,
                bpos: acc.bpos,
                fafx: acc.fafx,
                corn: acc.corn,
                ordered: Some(acc.order().push(tag)),
            }
        } else if tag == Texs::spec_tag() {
            MdlxModel {
                vers: acc.vers,
                modl: acc.modl,
                seqs: acc.seqs,
                glbs: acc.glbs,
                texs: m.texs,
                snds: acc.snds,
                mtls: acc.mtls,
                txan: acc.txan,
                geos: acc.geos,
                geoa: acc.geoa,
                bone: acc.bone,
                lite: acc.lite,
                help: acc.help,
                atch: acc.atch,
                pivt: acc.pivt,
                prem: acc.prem,
                pre2: acc.pre2,
                ribb: acc.ribb,
                evts: acc.evts,
                cams: acc.cams,
                clid: acc.clid,
                bpos: acc.bpos,
                fafx: acc.fafx,
                corn: acc.corn,
                ordered: Some(acc.order().push(tag)),
            }
        } else if tag == Snds::spec_tag() {
            MdlxModel {
                vers: acc.vers,
                modl: acc.modl,
                seqs: acc.seqs,
                glbs: acc.glbs,
                texs: acc.texs,
                snds: m.snds,
                mtls: acc.mtls,
                txan: acc.txan,
                geos: acc.geos,
                geoa: acc.geoa,
                bone: acc.bone,
                lite: acc.lite,
                help: acc.help,
                atch: acc.atch,
                pivt: acc.pivt,
                prem: acc.prem,
                pre2: acc.pre2,
                ribb: acc.ribb,
                evts: acc.evts,
                cams: acc.cams,
                clid: acc.clid,
                bpos: acc.bpos,
                fafx: acc.fafx,
                corn: acc.corn,
                ordered: Some(acc.order().push(tag)),
            }
        } else if tag == Mtls::spec_tag() {
            MdlxModel {
                vers: acc.vers,
                modl: acc.modl,
                seqs: acc.seqs,
                glbs: acc.glbs,
                texs: acc.texs,
                snds: acc.snds,
                mtls: m.mtls,
                txan: acc.txan,
                geos: acc.geos,
                geoa: acc.geoa,
                bone: acc.bone,
                lite: acc.lite,
                help: acc.help,
                atch: acc.atch,
                pivt: acc.pivt,
                prem: acc.prem,
                pre2: acc.pre2,
                ribb: acc.ribb,
                evts: acc.evts,
                cams: acc.cams,
                clid: acc.clid,
                bpos: acc.bpos,
                fafx: acc.fafx,
                corn: acc.corn,
                ordered: Some(acc.order().push(tag)),
            }
        } else if tag == Txan::spec_tag() {
            MdlxModel {
                vers: acc.vers,
                modl: acc.modl,
                seqs: acc.seqs,
                glbs: acc.glbs,
                texs: acc.texs,
                snds: acc.snds,
                mtls: acc.mtls,
                txan: m.txan,
                geos: acc.geos,
                geoa: acc.geoa,
                bone: acc.bone,
                lite: acc.lite,
                help: acc.help,
                atch: acc.atch,
                pivt: acc.pivt,
                prem: acc.prem,
                pre2: acc.pre2,
                ribb: acc.ribb,
                evts: acc.evts,
                cams: acc.cams,
                clid: acc.clid,
                bpos: acc.bpos,
                fafx: acc.fafx,
                corn: acc.corn,
                ordered: Some(acc.order().push(tag)),
            }
        } else if tag == Geos::spec_tag() {
            MdlxModel {
                vers: acc.vers,
                modl: acc.modl,
                seqs: acc.seqs,
                glbs: acc.glbs,
                texs: acc.texs,
                snds: acc.snds,
                mtls: acc.mtls,
                txan: acc.txan,
                geos: m.geos,
                geoa: acc.geoa,
                bone: acc.bone,
                lite: acc.lite,
                help: acc.help,
                atch: acc.atch,
                pivt: acc.pivt,
                prem: acc.prem,
                pre2: acc.pre2,
                ribb: acc.ribb,
                evts: acc.evts,
                cams: acc.cams,
                clid: acc.clid,
                bpos: acc.bpos,
                fafx: acc.fafx,
                corn: acc.corn,
                ordered: Some(acc.order().push(tag)),
            }
        } else if tag == Geoa::spec_tag() {
            MdlxModel {
                vers: acc.vers,
                modl: acc.modl,
                seqs: acc.seqs,
                glbs: acc.glbs,
                texs: acc.texs,
                snds: acc.snds,
                mtls: acc.mtls,
                txan: acc.txan,
                geos: acc.geos,
                geoa: m.geoa,
                bone: acc.bone,
                lite: acc.lite,
                help: acc.help,
                atch: acc.atch,
                pivt: acc.pivt,
                prem: acc.prem,
                pre2: acc.pre2,
                ribb: acc.ribb,
                evts: acc.evts,
                cams: acc.cams,
                clid: acc.clid,
                bpos: acc.bpos,
                fafx: acc.fafx,
                corn: acc.corn,
                ordered: Some(acc.order().push(tag)),
            }
        } else if tag == BoneChunk::spec_tag() {
            MdlxModel {
                vers: acc.vers,
                modl: acc.modl,
                seqs: acc.seqs,
                glbs: acc.glbs,
                texs: acc.texs,
                snds: acc.snds,
                mtls: acc.mtls,
                txan: acc.txan,
                geos: acc.geos,
                geoa: acc.geoa,
                bone: m.bone,
                lite: acc.lite,
                help: acc.help,
                atch: acc.atch,
                pivt: acc.pivt,
                prem: acc.prem,
                pre2: acc.pre2,
                ribb: acc.ribb,
                evts: acc.evts,
                cams: acc.cams,
                clid: acc.clid,
                bpos: acc.bpos,
                fafx: acc.fafx,
                corn: acc.corn,
                ordered: Some(acc.order().push(tag)),
            }
        } else if tag == Lite::spec_tag() {
            MdlxModel {
                vers: acc.vers,
                modl: acc.modl,
                seqs: acc.seqs,
                glbs: acc.glbs,
                texs: acc.texs,
                snds: acc.snds,
                mtls: acc.mtls,
                txan: acc.txan,
                geos: acc.geos,
                geoa: acc.geoa,
                bone: acc.bone,
                lite: m.lite,
                help: acc.help,
                atch: acc.atch,
                pivt: acc.pivt,
                prem: acc.prem,
                pre2: acc.pre2,
                ribb: acc.ribb,
                evts: acc.evts,
                cams: acc.cams,
                clid: acc.clid,
                bpos: acc.bpos,
                fafx: acc.fafx,
                corn: acc.corn,
                ordered: Some(acc.order().push(tag)),
            }
        } else if tag == Help::spec_tag() {
            MdlxModel {
                vers: acc.vers,
                modl: acc.modl,
                seqs: acc.seqs,
                glbs: acc.glbs,
                texs: acc.texs,
                snds: acc.snds,
                mtls: acc.mtls,
                txan: acc.txan,
                geos: acc.geos,
                geoa: acc.geoa,
                bone: acc.bone,
                lite: acc.lite,
                help: m.help,
                atch: acc.atch,
                pivt: acc.pivt,
                prem: acc.prem,
                pre2: acc.pre2,
                ribb: acc.ribb,
                evts: acc.evts,
                cams: acc.cams,
                clid: acc.clid,
                bpos: acc.bpos,
                fafx: acc.fafx,
                corn: acc.corn,
                ordered: Some(acc.order().push(tag)),
            }
        } else if tag == Atch::spec_tag() {
            MdlxModel {
                vers: acc.vers,
                modl: acc.modl,
                seqs: acc.seqs,
                glbs: acc.glbs,
                texs: acc.texs,
                snds: acc.snds,
                mtls: acc.mtls,
                txan: acc.txan,
                geos: acc.geos,
                geoa: acc.geoa,
                bone: acc.bone,
                lite: acc.lite,
                help: acc.help,
                atch: m.atch,
                pivt: acc.pivt,
                prem: acc.prem,
                pre2: acc.pre2,
                ribb: acc.ribb,
                evts: acc.evts,
                cams: acc.cams,
                clid: acc.clid,
                bpos: acc.bpos,
                fafx: acc.fafx,
                corn: acc.corn,
                ordered: Some(acc.order().push(tag)),
            }
        } else if tag == Pivt::spec_tag() {
            MdlxModel {
                vers: acc.vers,
                modl: acc.modl,
                seqs: acc.seqs,
                glbs: acc.glbs,
                texs: acc.texs,
                snds: acc.snds,
                mtls: acc.mtls,
                txan: acc.txan,
                geos: acc.geos,
                geoa: acc.geoa,
                bone: acc.bone,
                lite: acc.lite,
                help: acc.help,
                atch: acc.atch,
                pivt: m.pivt,
                prem: acc.prem,
                pre2: acc.pre2,
                ribb: acc.ribb,
                evts: acc.evts,
                cams: acc.cams,
                clid: acc.clid,
                bpos: acc.bpos,
                fafx: acc.fafx,
                corn: acc.corn,
                ordered: Some(acc.order().push(tag)),
            }
        } else if tag == Prem::spec_tag() {
            MdlxModel {
                vers: acc.vers,
                modl: acc.modl,
                seqs: acc.seqs,
                glbs: acc.glbs,
                texs: acc.texs,
                snds: acc.snds,
                mtls: acc.mtls,
                txan: acc.txan,
                geos: acc.geos,
                geoa: acc.geoa,
                bone: acc.bone,
                lite: acc.lite,
                help: acc.help,
                atch: acc.atch,
                pivt: acc.pivt,
                prem: m.prem,
                pre2: acc.pre2,
                ribb: acc.ribb,
                evts: acc.evts,
                cams: acc.cams,
                clid: acc.clid,
                bpos: acc.bpos,
                fafx: acc.fafx,
                corn: acc.corn,
                ordered: Some(acc.order().push(tag)),
            }
        } else if tag == Pre2::spec_tag() {
            MdlxModel {
                vers: acc.vers,
                modl: acc.modl,
                seqs: acc.seqs,
                glbs: acc.glbs,
                texs: acc.texs,
                snds: acc.snds,
                mtls: acc.mtls,
                txan: acc.txan,
                geos: acc.geos,
                geoa: acc.geoa,
                bone: acc.bone,
                lite: acc.lite,
                help: acc.help,
                atch: acc.atch,
                pivt: acc.pivt,
                prem: acc.prem,
                pre2: m.pre2,
                ribb: acc.ribb,
                evts: acc.evts,
                cams: acc.cams,
                clid: acc.clid,
                bpos: acc.bpos,
                fafx: acc.fafx,
                corn: acc.corn,
                ordered: Some(acc.order().push(tag)),
            }
        } else if tag == Ribb::spec_tag() {
            MdlxModel {
                vers: acc.vers,
                modl: acc.modl,
                seqs: acc.seqs,
                glbs: acc.glbs,
                texs: acc.texs,
                snds: acc.snds,
                mtls: acc.mtls,
                txan: acc.txan,
                geos: acc.geos,
                geoa: acc.geoa,
                bone: acc.bone,
                lite: acc.lite,
                help: acc.help,
                atch: acc.atch,
                pivt: acc.pivt,
                prem: acc.prem,
                pre2: acc.pre2,
                ribb: m.ribb,
                evts: acc.evts,
                cams: acc.cams,
                clid: acc.clid,
                bpos: acc.bpos,
                fafx: acc.fafx,
                corn: acc.corn,
                ordered: Some(acc.order().push(tag)),
            }
        } else if tag == Evts::spec_tag() {
            MdlxModel {
                vers: acc.vers,
                modl: acc.modl,
                seqs: acc.seqs,
                glbs: acc.glbs,
                texs: acc.texs,
                snds: acc.snds,
                mtls: acc.mtls,
                txan: acc.txan,
                geos: acc.geos,
                geoa: acc.geoa,
                bone: acc.bone,
                lite: acc.lite,
                help: acc.help,
                atch: acc.atch,
                pivt: acc.pivt,
                prem: acc.prem,
                pre2: acc.pre2,
                ribb: acc.ribb,
                evts: m.evts,
                cams: acc.cams,
                clid: acc.clid,
                bpos: acc.bpos,
                fafx: acc.fafx,
                corn: acc.corn,
                ordered: Some(acc.order().push(tag)),
            }
        } else if tag == Cams::spec_tag() {
            MdlxModel {
                vers: acc.vers,
                modl: acc.modl,
                seqs: acc.seqs,
                glbs: acc.glbs,
                texs: acc.texs,
                snds: acc.snds,
                mtls: acc.mtls,
                txan: acc.txan,
                geos: acc.geos,
                geoa: acc.geoa,
                bone: acc.bone,
                lite: acc.lite,
                help: acc.help,
                atch: acc.atch,
                pivt: acc.pivt,
                prem: acc.prem,
                pre2: acc.pre2,
                ribb: acc.ribb,
                evts: acc.evts,
                cams: m.cams,
                clid: acc.clid,
                bpos: acc.bpos,
                fafx: acc.fafx,
                corn: acc.corn,
                ordered: Some(acc.order().push(tag)),
            }
        } else if tag == Clid::spec_tag() {
            MdlxModel {
                vers: acc.vers,
                modl: acc.modl,
                seqs: acc.seqs,
                glbs: acc.glbs,
                texs: acc.texs,
                snds: acc.snds,
                mtls: acc.mtls,
                txan: acc.txan,
                geos: acc.geos,
                geoa: acc.geoa,
                bone: acc.bone,
                lite: acc.lite,
                help: acc.help,
                atch: acc.atch,
                pivt: acc.pivt,
                prem: acc.prem,
                pre2: acc.pre2,
                ribb: acc.ribb,
                evts: acc.evts,
                cams: acc.cams,
                clid: m.clid,
                bpos: acc.bpos,
                fafx: acc.fafx,
                corn: acc.corn,
                ordered: Some(acc.order().push(tag)),
            }
        } else if tag == Bpos::spec_tag() {
            MdlxModel {
                vers: acc.vers,
                modl: acc.modl,
                seqs: acc.seqs,
                glbs: acc.glbs,
                texs: acc.texs,
                snds: acc.snds,
                mtls: acc.mtls,
                txan: acc.txan,
                geos: acc.geos,
                geoa: acc.geoa,
                bone: acc.bone,
                lite: acc.lite,
                help: acc.help,
                atch: acc.atch,
                pivt: acc.pivt,
                prem: acc.prem,
                pre2: acc.pre2,
                ribb: acc.ribb,
                evts: acc.evts,
                cams: acc.cams,
                clid: acc.clid,
                bpos: m.bpos,
                fafx: acc.fafx,
                corn: acc.corn,
                ordered: Some(acc.order().push(tag)),
            }
        } else if tag == Fafx::spec_tag() {
            MdlxModel {
                vers: acc.vers,
                modl: acc.modl,
                seqs: acc.seqs,
                glbs: acc.glbs,
                texs: acc.texs,
                snds: acc.snds,
                mtls: acc.mtls,
                txan: acc.txan,
                geos: acc.geos,
                geoa: acc.geoa,
                bone: acc.bone,
                lite: acc.lite,
                help: acc.help,
                atch: acc.atch,
                pivt: acc.pivt,
                prem: acc.prem,
                pre2: acc.pre2,
                ribb: acc.ribb,
                evts: acc.evts,
                cams: acc.cams,
                clid: acc.clid,
                bpos: acc.bpos,
                fafx: m.fafx,
                corn: acc.corn,
                ordered: Some(acc.order().push(tag)),
            }
        } else if tag == Corn::spec_tag() {
            MdlxModel {
                vers: acc.vers,
                modl: acc.modl,
                seqs: acc.seqs,
                glbs: acc.glbs,
                texs: acc.texs,
                snds: acc.snds,
                mtls: acc.mtls,
                txan: acc.txan,
                geos: acc.geos,
                geoa: acc.geoa,
                bone: acc.bone,
                lite: acc.lite,
                help: acc.help,
                atch: acc.atch,
                pivt: acc.pivt,
                prem: acc.prem,
                pre2: acc.pre2,
                ribb: acc.ribb,
                evts: acc.evts,
                cams: acc.cams,
                clid: acc.clid,
                bpos: acc.bpos,
                fafx: acc.fafx,
                corn: m.corn,
                ordered: Some(acc.order().push(tag)),
            }
        } else {
            acc
        }
    }

    /// `acc` with the chunks of `m` under the tags, recorded in the order of
    /// the tags.
    pub open spec fn refill_all(acc: MdlxModel, m: MdlxModel, tags: Seq<Tag>) -> MdlxModel
        decreases tags.len(),
    {
        if tags.len() == 0 {
            acc
        } else {
            Mdlx::refill_all(Mdlx::refill(acc, m, tags[0]), m, tags.skip(1))
        }
    }

    /// The version in effect for the chunk at position `i` of the recorded
    /// order: the one of the version chunk if its tag is recorded before, else
    /// the one that is handed in.
    pub open spec fn version_before(m: MdlxModel, version: Option<u32>, i: int) -> Option<u32> {
        if m.order().take(i).contains(Vers::spec_tag()) && m.vers is Some {
            Some(m.vers->0.version)
        } else {
            version
        }
    }

    /// The models that the parser can return at `version`: an order is
    /// recorded, every tag of it is the one of a chunk that is present and
    /// well formed at the version in effect at its place, and every chunk that
    /// is present is recorded.
    pub open spec fn well_formed(m: MdlxModel, version: Option<u32>) -> bool {
        &&& m.ordered is Some
        &&& forall|i: int|
            0 <= i < m.order().len() ==> Mdlx::slot_well_formed(
                m,
                #[trigger] m.order()[i],
                Mdlx::version_before(m, version, i),
            )
        &&& m.vers is Some ==> m.order().contains(Vers::spec_tag())
        &&& m.modl is Some ==> m.order().contains(Modl::spec_tag())
        &&& m.seqs is Some ==> m.order().contains(Seqs::spec_tag())
        &&& m.glbs is Some ==> m.order().contains(Glbs::spec_tag())
        &&& m.texs is Some ==> m.order().contains(Texs::spec_tag())
        &&& m.snds is Some ==> m.order().contains(Snds::spec_tag())
        &&& m.mtls is Some ==> m.order().contains(Mtls::spec_tag())
        &&& m.txan is Some ==> m.order().contains(Txan::spec_tag())
        &&& m.geos is Some ==> m.order().contains(Geos::spec_tag())
        &&& m.geoa is Some ==> m.order().contains(Geoa::spec_tag())
        &&& m.bone is Some ==> m.order().contains(BoneChunk::spec_tag())
        &&& m.lite is Some ==> m.order().contains(Lite::spec_tag())
        &&& m.help is Some ==> m.order().contains(Help::spec_tag())
        &&& m.atch is Some ==> m.order().contains(Atch::spec_tag())
        &&& m.pivt is Some ==> m.order().contains(Pivt::spec_tag())
        &&& m.prem is Some ==> m.order().contains(Prem::spec_tag())
        &&& m.pre2 is Some ==> m.order().contains(Pre2::spec_tag())
        &&& m.ribb is Some ==> m.order().contains(Ribb::spec_tag())
        &&& m.evts is Some ==> m.order().contains(Evts::spec_tag())
        &&& m.cams is Some ==> m.order().contains(Cams::spec_tag())
        &&& m.clid is Some ==> m.order().contains(Clid::spec_tag())
        &&& m.bpos is Some ==> m.order().contains(Bpos::spec_tag())
        &&& m.fafx is Some ==> m.order().contains(Fafx::spec_tag())
        &&& m.corn is Some ==> m.order().contains(Corn::spec_tag())
    }

    /// The span of a chunk that is parsed back from its own bytes, at the
    /// front of the input, is read into the model, and the chunks go on
    /// behind it.
    proof fn lemma_chunk_refill(acc: MdlxModel, m: MdlxModel, version: Option<u32>, tag: Tag, tail: Seq<u8>)
        requires
            Mdlx::slot_reparses(m, tag, spec_version(acc, version)),
        ensures
            m.slot_error(tag) is None,
            spec_parse_subchunks::<Mdlx>(acc, version, m.slot_wire(tag) + tail)
                == spec_parse_subchunks::<Mdlx>(Mdlx::refill(acc, m, tag), version, tail),
    {
        if tag == Vers::spec_tag() {
            lemma_refill_vers(acc, m, version, tag);
        } else if tag == Modl::spec_tag() {
            lemma_refill_modl(acc, m, version, tag);
        } else if tag == Seqs::spec_tag() {
            lemma_refill_seqs(acc, m, version, tag);
        } else if tag == Glbs::spec_tag() {
            lemma_refill_glbs(acc, m, version, tag);
        } else if tag == Texs::spec_tag() {
            lemma_refill_texs(acc, m, version, tag);
        } else if tag == Snds::spec_tag() {
            lemma_refill_snds(acc, m, version, tag);
        } else if tag == Mtls::spec_tag() {
            lemma_refill_mtls(acc, m, version, tag);
        } else if tag == Txan::spec_tag() {
            lemma_refill_txan(acc, m, version, tag);
        } else if tag == Geos::spec_tag() {
            lemma_refill_geos(acc, m, version, tag);
        } else if tag == Geoa::spec_tag() {
            lemma_refill_geoa(acc, m, version, tag);
        } else if tag == BoneChunk::spec_tag() {
            lemma_refill_bone(acc, m, version, tag);
        } else if tag == Lite::spec_tag() {
            lemma_refill_lite(acc, m, version, tag);
        } else if tag == Help::spec_tag() {
            lemma_refill_help(acc, m, version, tag);
        } else if tag == Atch::spec_tag() {
            lemma_refill_atch(acc, m, version, tag);
        } else if tag == Pivt::spec_tag() {
            lemma_refill_pivt(acc, m, version, tag);
        } else if tag == Prem::spec_tag() {
            lemma_refill_prem(acc, m, version, tag);
        } else if tag == Pre2::spec_tag() {
            lemma_refill_pre2(acc, m, version, tag);
        } else if tag == Ribb::spec_tag() {
            lemma_refill_ribb(acc, m, version, tag);
        } else if tag == Evts::spec_tag() {
            lemma_refill_evts(acc, m, version, tag);
        } else if tag == Cams::spec_tag() {
            lemma_refill_cams(acc, m, version, tag);
        } else if tag == Clid::spec_tag() {
            lemma_refill_clid(acc, m, version, tag);
        } else if tag == Bpos::spec_tag() {
            lemma_refill_bpos(acc, m, version, tag);
        } else if tag == Fafx::spec_tag() {
            lemma_refill_fafx(acc, m, version, tag);
        } else if tag == Corn::spec_tag() {
            lemma_refill_corn(acc, m, version, tag);
        }
        let span = m.slot_wire(tag);
        let input = span + tail;
        let header = Header::spec_parse(None, span)->Ok_0.1;
        assert(input.take(8) =~= span.take(8));
        lemma_header_prefix(input, span);
        assert(input.take(header.size + 8) =~= span);
        assert(input.skip(header.size + 8) =~= tail);
    }

    /// What the chunks of `m` under the tags make of `acc`: the tags are
    /// recorded behind the ones of `acc`, and a chunk is the one of `m` if its
    /// tag is among the tags.
    #[verifier::rlimit(100)]
    proof fn lemma_refill_fields(acc: MdlxModel, m: MdlxModel, tags: Seq<Tag>)
        requires
            acc.ordered is Some,
            forall|i: int| 0 <= i < tags.len() ==> Mdlx::knows(#[trigger] tags[i]),
        ensures
            ({
                let r = Mdlx::refill_all(acc, m, tags);
                &&& r.ordered == Some(acc.order() + tags)
                &&& r.vers == if tags.contains(Vers::spec_tag()) {
                    m.vers
                } else {
                    acc.vers
                }
                &&& r.modl == if tags.contains(Modl::spec_tag()) {
                    m.modl
                } else {
                    acc.modl
                }
                &&& r.seqs == if tags.contains(Seqs::spec_tag()) {
                    m.seqs
                } else {
                    acc.seqs
                }
                &&& r.glbs == if tags.contains(Glbs::spec_tag()) {
                    m.glbs
                } else {
                    acc.glbs
                }
                &&& r.texs == if tags.contains(Texs::spec_tag()) {
                    m.texs
                } else {
                    acc.texs
                }
                &&& r.snds == if tags.contains(Snds::spec_tag()) {
                    m.snds
                } else {
                    acc.snds
                }
                &&& r.mtls == if tags.contains(Mtls::spec_tag()) {
                    m.mtls
                } else {
                    acc.mtls
                }
                &&& r.txan == if tags.contains(Txan::spec_tag()) {
                    m.txan
                } else {
                    acc.txan
                }
                &&& r.geos == if tags.contains(Geos::spec_tag()) {
                    m.geos
                } else {
                    acc.geos
                }
                &&& r.geoa == if tags.contains(Geoa::spec_tag()) {
                    m.geoa
                } else {
                    acc.geoa
                }
                &&& r.bone == if tags.contains(BoneChunk::spec_tag()) {
                    m.bone
                } else {
                    acc.bone
                }
                &&& r.lite == if tags.contains(Lite::spec_tag()) {
                    m.lite
                } else {
                    acc.lite
                }
                &&& r.help == if tags.contains(Help::spec_tag()) {
                    m.help
                } else {
                    acc.help
                }
                &&& r.atch == if tags.contains(Atch::spec_tag()) {
                    m.atch
                } else {
                    acc.atch
                }
                &&& r.pivt == if tags.contains(Pivt::spec_tag()) {
                    m.pivt
                } else {
                    acc.pivt
                }
                &&& r.prem == if tags.contains(Prem::spec_tag()) {
                    m.prem
                } else {
                    acc.prem
                }
                &&& r.pre2 == if tags.contains(Pre2::spec_tag()) {
                    m.pre2
                } else {
                    acc.pre2
                }
                &&& r.ribb == if tags.contains(Ribb::spec_tag()) {
                    m.ribb
                } else {
                    acc.ribb
                }
                &&& r.evts == if tags.contains(Evts::spec_tag()) {
                    m.evts
                } else {
                    acc.evts
                }
                &&& r.cams == if tags.contains(Cams::spec_tag()) {
                    m.cams
                } else {
                    acc.cams
                }
                &&& r.clid == if tags.contains(Clid::spec_tag()) {
                    m.clid
                } else {
                    acc.clid
                }
                &&& r.bpos == if tags.contains(Bpos::spec_tag()) {
                    m.bpos
                } else {
                    acc.bpos
                }
                &&& r.fafx == if tags.contains(Fafx::spec_tag()) {
                    m.fafx
                } else {
                    acc.fafx
                }
                &&& r.corn == if tags.contains(Corn::spec_tag()) {
                    m.corn
                } else {
                    acc.corn
                }
            }),
        decreases tags.len(),
    {
        if tags.len() == 0 {
            assert(acc.order() + tags =~= acc.order());
        } else {
            let next = Mdlx::refill(acc, m, tags[0]);
            assert(Mdlx::knows(tags[0]));
            assert forall|i: int| 0 <= i < tags.skip(1).len() implies Mdlx::knows(
                #[trigger] tags.skip(1)[i],
            ) by {
                assert(tags.skip(1)[i] == tags[i + 1]);
            }
            Mdlx::lemma_refill_fields(next, m, tags.skip(1));
            assert(next.order() + tags.skip(1) =~= acc.order() + tags);
            lemma_mdlx_tags_differ();
            lemma_contains_front(tags, Vers::spec_tag());
            lemma_contains_front(tags, Modl::spec_tag());
            lemma_contains_front(tags, Seqs::spec_tag());
            lemma_contains_front(tags, Glbs::spec_tag());
            lemma_contains_front(tags, Texs::spec_tag());
            lemma_contains_front(tags, Snds::spec_tag());
            lemma_contains_front(tags, Mtls::spec_tag());
            lemma_contains_front(tags, Txan::spec_tag());
            lemma_contains_front(tags, Geos::spec_tag());
            lemma_contains_front(tags, Geoa::spec_tag());
            lemma_contains_front(tags, BoneChunk::spec_tag());
            lemma_contains_front(tags, Lite::spec_tag());
            lemma_contains_front(tags, Help::spec_tag());
            lemma_contains_front(tags, Atch::spec_tag());
            lemma_contains_front(tags, Pivt::spec_tag());
            lemma_contains_front(tags, Prem::spec_tag());
            lemma_contains_front(tags, Pre2::spec_tag());
            lemma_contains_front(tags, Ribb::spec_tag());
            lemma_contains_front(tags, Evts::spec_tag());
            lemma_contains_front(tags, Cams::spec_tag());
            lemma_contains_front(tags, Clid::spec_tag());
            lemma_contains_front(tags, Bpos::spec_tag());
            lemma_contains_front(tags, Fafx::spec_tag());
            lemma_contains_front(tags, Corn::spec_tag());
        }
    }

    /// The bytes of chunks each of which is parsed back from its own bytes
    /// are parsed back to the chunks, in their order.
    proof fn lemma_refill_parse(acc: MdlxModel, m: MdlxModel, version: Option<u32>, tags: Seq<Tag>)
        requires
            forall|i: int|
                0 <= i < tags.len() ==> Mdlx::slot_reparses(
                    m,
                    #[trigger] tags[i],
                    spec_version(Mdlx::refill_all(acc, m, tags.take(i)), version),
                ),
        ensures
            replay_error(m, tags) is None,
            spec_parse_subchunks::<Mdlx>(acc, version, replay(m, tags)) == Ok::<_, MdxParseError>(
                (Seq::<u8>::empty(), Mdlx::refill_all(acc, m, tags)),
            ),
        decreases tags.len(),
    {
        if tags.len() > 0 {
            let tag = tags[0];
            let others = tags.skip(1);
            let next = Mdlx::refill(acc, m, tag);
            assert(tags.take(0) =~= Seq::<Tag>::empty());
            assert(Mdlx::slot_reparses(m, tags[0], spec_version(acc, version)));
            assert forall|i: int| 0 <= i < others.len() implies Mdlx::slot_reparses(
                m,
                #[trigger] others[i],
                spec_version(Mdlx::refill_all(next, m, others.take(i)), version),
            ) by {
                assert(others[i] == tags[i + 1]);
                assert(tags.take(i + 1)[0] == tag);
                assert(tags.take(i + 1).skip(1) =~= others.take(i));
            }
            Mdlx::lemma_chunk_refill(acc, m, version, tag, replay(m, others));
            Mdlx::lemma_refill_parse(next, m, version, others);
        }
    }

    /// What a well-formed model is encoded to is parsed back to the model.
    pub proof fn lemma_wire_parse(m: MdlxModel, version: Option<u32>)
        requires
            Mdlx::well_formed(m, version),
        ensures
            Mdlx::encode_error(m) is None,
            Mdlx::spec_parse(version, Mdlx::wire(m)) == Ok::<_, MdxParseError>(
                (Seq::<u8>::empty(), m),
            ),
    {
        let start = MdlxModel::empty(Some(Seq::empty()));
        let order = m.order();
        assert forall|i: int| 0 <= i < order.len() implies Mdlx::slot_reparses(
            m,
            #[trigger] order[i],
            spec_version(Mdlx::refill_all(start, m, order.take(i)), version),
        ) by {
            assert(Mdlx::slot_well_formed(m, order[i], Mdlx::version_before(m, version, i)));
            assert forall|j: int| 0 <= j < order.take(i).len() implies Mdlx::knows(
                #[trigger] order.take(i)[j],
            ) by {
                assert(Mdlx::slot_well_formed(m, order[j], Mdlx::version_before(m, version, j)));
            }
            Mdlx::lemma_refill_fields(start, m, order.take(i));
            if order.take(i).contains(Vers::spec_tag()) {
                let j = choose|j: int| 0 <= j < order.take(i).len() && order.take(i)[j] == Vers::spec_tag();
                assert(Mdlx::slot_well_formed(m, order[j], Mdlx::version_before(m, version, j)));
            }
            Mdlx::lemma_well_formed_reparses(
                m,
                order[i],
                spec_version(Mdlx::refill_all(start, m, order.take(i)), version),
            );
        }
        Mdlx::lemma_refill_parse(start, m, version, order);
        assert forall|j: int| 0 <= j < order.len() implies Mdlx::knows(#[trigger] order[j]) by {
            assert(Mdlx::slot_well_formed(m, order[j], Mdlx::version_before(m, version, j)));
        }
        Mdlx::lemma_refill_fields(start, m, order);
        assert(Seq::<Tag>::empty() + order =~= order);
        lemma_expect_tag_wire(Self::spec_tag(), wire_slots(m));
    }
}

/// Every chunk of `m2` but the one under the tag is the one of `m`.
pub open spec fn kept_but(m: MdlxModel, m2: MdlxModel, tag: Tag) -> bool {
    &&& tag != Vers::spec_tag() ==> m2.vers == m.vers
    &&& tag != Modl::spec_tag() ==> m2.modl == m.modl
    &&& tag != Seqs::spec_tag() ==> m2.seqs == m.seqs
    &&& tag != Glbs::spec_tag() ==> m2.glbs == m.glbs
    &&& tag != Texs::spec_tag() ==> m2.texs == m.texs
    &&& tag != Snds::spec_tag() ==> m2.snds == m.snds
    &&& tag != Mtls::spec_tag() ==> m2.mtls == m.mtls
    &&& tag != Txan::spec_tag() ==> m2.txan == m.txan
    &&& tag != Geos::spec_tag() ==> m2.geos == m.geos
    &&& tag != Geoa::spec_tag() ==> m2.geoa == m.geoa
    &&& tag != BoneChunk::spec_tag() ==> m2.bone == m.bone
    &&& tag != Lite::spec_tag() ==> m2.lite == m.lite
    &&& tag != Help::spec_tag() ==> m2.help == m.help
    &&& tag != Atch::spec_tag() ==> m2.atch == m.atch
    &&& tag != Pivt::spec_tag() ==> m2.pivt == m.pivt
    &&& tag != Prem::spec_tag() ==> m2.prem == m.prem
    &&& tag != Pre2::spec_tag() ==> m2.pre2 == m.pre2
    &&& tag != Ribb::spec_tag() ==> m2.ribb == m.ribb
    &&& tag != Evts::spec_tag() ==> m2.evts == m.evts
    &&& tag != Cams::spec_tag() ==> m2.cams == m.cams
    &&& tag != Clid::spec_tag() ==> m2.clid == m.clid
    &&& tag != Bpos::spec_tag() ==> m2.bpos == m.bpos
    &&& tag != Fafx::spec_tag() ==> m2.fafx == m.fafx
    &&& tag != Corn::spec_tag() ==> m2.corn == m.corn
}

/// `m2` is `m` after a chunk with a known tag was read at the version `w`: the
/// tag is recorded, the other chunks are kept, and the chunk, if it is
/// faithful, is parsed back from its own bytes at `w`.
pub open spec fn step_parsed(m: MdlxModel, m2: MdlxModel, tag: Tag, w: Option<u32>) -> bool {
    &&& Mdlx::knows(tag)
    &&& m2.ordered == Some(m.order().push(tag))
    &&& kept_but(m, m2, tag)
    &&& m2.slot_faithful(tag) ==> Mdlx::slot_reparses(m2, tag, w)
}

/// A chunk whose tag is not among the tags is the one of `m0`.
pub open spec fn kept_unless(m0: MdlxModel, m: MdlxModel, tags: Seq<Tag>) -> bool {
    &&& !tags.contains(Vers::spec_tag()) ==> m.vers == m0.vers
    &&& !tags.contains(Modl::spec_tag()) ==> m.modl == m0.modl
    &&& !tags.contains(Seqs::spec_tag()) ==> m.seqs == m0.seqs
    &&& !tags.contains(Glbs::spec_tag()) ==> m.glbs == m0.glbs
    &&& !tags.contains(Texs::spec_tag()) ==> m.texs == m0.texs
    &&& !tags.contains(Snds::spec_tag()) ==> m.snds == m0.snds
    &&& !tags.contains(Mtls::spec_tag()) ==> m.mtls == m0.mtls
    &&& !tags.contains(Txan::spec_tag()) ==> m.txan == m0.txan
    &&& !tags.contains(Geos::spec_tag()) ==> m.geos == m0.geos
    &&& !tags.contains(Geoa::spec_tag()) ==> m.geoa == m0.geoa
    &&& !tags.contains(BoneChunk::spec_tag()) ==> m.bone == m0.bone
    &&& !tags.contains(Lite::spec_tag()) ==> m.lite == m0.lite
    &&& !tags.contains(Help::spec_tag()) ==> m.help == m0.help
    &&& !tags.contains(Atch::spec_tag()) ==> m.atch == m0.atch
    &&& !tags.contains(Pivt::spec_tag()) ==> m.pivt == m0.pivt
    &&& !tags.contains(Prem::spec_tag()) ==> m.prem == m0.prem
    &&& !tags.contains(Pre2::spec_tag()) ==> m.pre2 == m0.pre2
    &&& !tags.contains(Ribb::spec_tag()) ==> m.ribb == m0.ribb
    &&& !tags.contains(Evts::spec_tag()) ==> m.evts == m0.evts
    &&& !tags.contains(Cams::spec_tag()) ==> m.cams == m0.cams
    &&& !tags.contains(Clid::spec_tag()) ==> m.clid == m0.clid
    &&& !tags.contains(Bpos::spec_tag()) ==> m.bpos == m0.bpos
    &&& !tags.contains(Fafx::spec_tag()) ==> m.fafx == m0.fafx
    &&& !tags.contains(Corn::spec_tag()) ==> m.corn == m0.corn
}

/// A chunk that is present in `m` is present in `m0` or has its tag among the
/// tags.
pub open spec fn present_if(m0: MdlxModel, m: MdlxModel, tags: Seq<Tag>) -> bool {
    &&& m.vers is Some ==> m0.vers is Some || tags.contains(Vers::spec_tag())
    &&& m.modl is Some ==> m0.modl is Some || tags.contains(Modl::spec_tag())
    &&& m.seqs is Some ==> m0.seqs is Some || tags.contains(Seqs::spec_tag())
    &&& m.glbs is Some ==> m0.glbs is Some || tags.contains(Glbs::spec_tag())
    &&& m.texs is Some ==> m0.texs is Some || tags.contains(Texs::spec_tag())
    &&& m.snds is Some ==> m0.snds is Some || tags.contains(Snds::spec_tag())
    &&& m.mtls is Some ==> m0.mtls is Some || tags.contains(Mtls::spec_tag())
    &&& m.txan is Some ==> m0.txan is Some || tags.contains(Txan::spec_tag())
    &&& m.geos is Some ==> m0.geos is Some || tags.contains(Geos::spec_tag())
    &&& m.geoa is Some ==> m0.geoa is Some || tags.contains(Geoa::spec_tag())
    &&& m.bone is Some ==> m0.bone is Some || tags.contains(BoneChunk::spec_tag())
    &&& m.lite is Some ==> m0.lite is Some || tags.contains(Lite::spec_tag())
    &&& m.help is Some ==> m0.help is Some || tags.contains(Help::spec_tag())
    &&& m.atch is Some ==> m0.atch is Some || tags.contains(Atch::spec_tag())
    &&& m.pivt is Some ==> m0.pivt is Some || tags.contains(Pivt::spec_tag())
    &&& m.prem is Some ==> m0.prem is Some || tags.contains(Prem::spec_tag())
    &&& m.pre2 is Some ==> m0.pre2 is Some || tags.contains(Pre2::spec_tag())
    &&& m.ribb is Some ==> m0.ribb is Some || tags.contains(Ribb::spec_tag())
    &&& m.evts is Some ==> m0.evts is Some || tags.contains(Evts::spec_tag())
    &&& m.cams is Some ==> m0.cams is Some || tags.contains(Cams::spec_tag())
    &&& m.clid is Some ==> m0.clid is Some || tags.contains(Clid::spec_tag())
    &&& m.bpos is Some ==> m0.bpos is Some || tags.contains(Bpos::spec_tag())
    &&& m.fafx is Some ==> m0.fafx is Some || tags.contains(Fafx::spec_tag())
    &&& m.corn is Some ==> m0.corn is Some || tags.contains(Corn::spec_tag())
}

/// What `m0` became by reading chunks: the tags that were met are recorded
/// behind the ones of `m0` and are known, the chunks under other tags are
/// kept, and every faithful chunk is parsed back from its own bytes at the
/// version that was in effect, as long as the version chunk was met at most
/// once and before all others.
pub open spec fn rescanned(m0: MdlxModel, m: MdlxModel, version: Option<u32>) -> bool {
    let len0 = m0.order().len() as int;
    let met = m.order().skip(len0);
    let vers = Vers::spec_tag();
    &&& m0.recorded() ==> m.recorded()
    &&& len0 <= m.order().len()
    &&& m.order().take(len0) == m0.order()
    &&& forall|i: int| 0 <= i < met.len() ==> Mdlx::knows(#[trigger] met[i])
    &&& kept_unless(m0, m, met)
    &&& present_if(m0, m, met)
    &&& !met.contains(vers) ==> forall|i: int|
        0 <= i < met.len() ==> (m.slot_faithful(#[trigger] met[i]) ==> Mdlx::slot_reparses(
            m,
            met[i],
            spec_version(m0, version),
        ))
    &&& met.len() > 0 && met[0] == vers && !met.skip(1).contains(vers) ==> {
        &&& m.slot_faithful(vers) ==> Mdlx::slot_reparses(m, vers, spec_version(m0, version))
        &&& forall|i: int|
            1 <= i < met.len() ==> (m.slot_faithful(#[trigger] met[i]) ==> Mdlx::slot_reparses(
                m,
                met[i],
                spec_version(m, version),
            ))
    }
}

/// The chunk `vers` that was read from a span is parsed back from its own bytes
/// at the version at which it was read, and no other chunk has changed.
#[verifier::rlimit(50)]
proof fn lemma_parsed_vers(m: MdlxModel, version: Option<u32>, header: Header, span: Seq<u8>)
    requires
        span_announced(span),
        Header::spec_parse(None, span) is Ok,
        Header::spec_parse(None, span)->Ok_0.1 == header,
        header.tag == Vers::spec_tag(),
    ensures
        match Mdlx::spec_chunk(m, version, header, span) {
            Ok((leftover, m2)) => leftover.len() == 0 ==> step_parsed(
                m,
                m2,
                header.tag,
                spec_version(m, version),
            ),
            Err(_) => true,
        },
{
    Vers::lemma_chunk_parse_wire(spec_version(m, version), span);
    match Vers::spec_parse(spec_version(m, version), span) {
        Ok((leftover, chunk)) => {
            if leftover.len() == 0 {
                assert(leftover =~= Seq::<u8>::empty());
            }
        },
        Err(_) => {},
    }
}

/// The chunk `modl` that was read from a span is parsed back from its own bytes
/// at the version at which it was read, and no other chunk has changed.
#[verifier::rlimit(50)]
proof fn lemma_parsed_modl(m: MdlxModel, version: Option<u32>, header: Header, span: Seq<u8>)
    requires
        span_announced(span),
        Header::spec_parse(None, span) is Ok,
        Header::spec_parse(None, span)->Ok_0.1 == header,
        header.tag == Modl::spec_tag(),
        header.tag != Vers::spec_tag(),
    ensures
        match Mdlx::spec_chunk(m, version, header, span) {
            Ok((leftover, m2)) => leftover.len() == 0 ==> step_parsed(
                m,
                m2,
                header.tag,
                spec_version(m, version),
            ),
            Err(_) => true,
        },
{
    Modl::lemma_chunk_parse_wire(spec_version(m, version), span);
    match Modl::spec_parse(spec_version(m, version), span) {
        Ok((leftover, chunk)) => {
            if leftover.len() == 0 {
                assert(leftover =~= Seq::<u8>::empty());
            }
        },
        Err(_) => {},
    }
}

/// The chunk `seqs` that was read from a span is parsed back from its own bytes
/// at the version at which it was read, and no other chunk has changed.
#[verifier::rlimit(50)]
proof fn lemma_parsed_seqs(m: MdlxModel, version: Option<u32>, header: Header, span: Seq<u8>)
    requires
        span_announced(span),
        Header::spec_parse(None, span) is Ok,
        Header::spec_parse(None, span)->Ok_0.1 == header,
        header.tag == Seqs::spec_tag(),
        header.tag != Vers::spec_tag(),
        header.tag != Modl::spec_tag(),
    ensures
        match Mdlx::spec_chunk(m, version, header, span) {
            Ok((leftover, m2)) => leftover.len() == 0 ==> step_parsed(
                m,
                m2,
                header.tag,
                spec_version(m, version),
            ),
            Err(_) => true,
        },
{
    Seqs::lemma_chunk_parse_wire(spec_version(m, version), span);
    match Seqs::spec_parse(spec_version(m, version), span) {
        Ok((leftover, chunk)) => {
            if leftover.len() == 0 {
                assert(leftover =~= Seq::<u8>::empty());
            }
        },
        Err(_) => {},
    }
}

/// The chunk `glbs` that was read from a span is parsed back from its own bytes
/// at the version at which it was read, and no other chunk has changed.
#[verifier::rlimit(50)]
proof fn lemma_parsed_glbs(m: MdlxModel, version: Option<u32>, header: Header, span: Seq<u8>)
    requires
        span_announced(span),
        Header::spec_parse(None, span) is Ok,
        Header::spec_parse(None, span)->Ok_0.1 == header,
        header.tag == Glbs::spec_tag(),
        header.tag != Vers::spec_tag(),
        header.tag != Modl::spec_tag(),
        header.tag != Seqs::spec_tag(),
    ensures
        match Mdlx::spec_chunk(m, version, header, span) {
            Ok((leftover, m2)) => leftover.len() == 0 ==> step_parsed(
                m,
                m2,
                header.tag,
                spec_version(m, version),
            ),
            Err(_) => true,
        },
{
    Glbs::lemma_chunk_parse_wire(spec_version(m, version), span);
    match Glbs::spec_parse(spec_version(m, version), span) {
        Ok((leftover, chunk)) => {
            if leftover.len() == 0 {
                assert(leftover =~= Seq::<u8>::empty());
            }
        },
        Err(_) => {},
    }
}

/// The chunk `texs` that was read from a span is parsed back from its own bytes
/// at the version at which it was read, and no other chunk has changed.
#[verifier::rlimit(50)]
proof fn lemma_parsed_texs(m: MdlxModel, version: Option<u32>, header: Header, span: Seq<u8>)
    requires
        span_announced(span),
        Header::spec_parse(None, span) is Ok,
        Header::spec_parse(None, span)->Ok_0.1 == header,
        header.tag == Texs::spec_tag(),
        header.tag != Vers::spec_tag(),
        header.tag != Modl::spec_tag(),
        header.tag != Seqs::spec_tag(),
        header.tag != Glbs::spec_tag(),
    ensures
        match Mdlx::spec_chunk(m, version, header, span) {
            Ok((leftover, m2)) => leftover.len() == 0 ==> step_parsed(
                m,
                m2,
                header.tag,
                spec_version(m, version),
            ),
            Err(_) => true,
        },
{
    Texs::lemma_chunk_parse_wire(spec_version(m, version), span);
    match Texs::spec_parse(spec_version(m, version), span) {
        Ok((leftover, chunk)) => {
            if leftover.len() == 0 {
                assert(leftover =~= Seq::<u8>::empty());
            }
        },
        Err(_) => {},
    }
}

/// The chunk `snds` that was read from a span is parsed back from its own bytes
/// at the version at which it was read, and no other chunk has changed.
#[verifier::rlimit(50)]
proof fn lemma_parsed_snds(m: MdlxModel, version: Option<u32>, header: Header, span: Seq<u8>)
    requires
        span_announced(span),
        Header::spec_parse(None, span) is Ok,
        Header::spec_parse(None, span)->Ok_0.1 == header,
        header.tag == Snds::spec_tag(),
        header.tag != Vers::spec_tag(),
        header.tag != Modl::spec_tag(),
        header.tag != Seqs::spec_tag(),
        header.tag != Glbs::spec_tag(),
        header.tag != Texs::spec_tag(),
    ensures
        match Mdlx::spec_chunk(m, version, header, span) {
            Ok((leftover, m2)) => leftover.len() == 0 ==> step_parsed(
                m,
                m2,
                header.tag,
                spec_version(m, version),
            ),
            Err(_) => true,
        },
{
    Snds::lemma_chunk_parse_wire(spec_version(m, version), span);
    match Snds::spec_parse(spec_version(m, version), span) {
        Ok((leftover, chunk)) => {
            if leftover.len() == 0 {
                assert(leftover =~= Seq::<u8>::empty());
            }
        },
        Err(_) => {},
    }
}

/// The chunk `mtls` that was read from a span is parsed back from its own bytes
/// at the version at which it was read, and no other chunk has changed.
#[verifier::rlimit(50)]
proof fn lemma_parsed_mtls(m: MdlxModel, version: Option<u32>, header: Header, span: Seq<u8>)
    requires
        span_announced(span),
        Header::spec_parse(None, span) is Ok,
        Header::spec_parse(None, span)->Ok_0.1 == header,
        header.tag == Mtls::spec_tag(),
        header.tag != Vers::spec_tag(),
        header.tag != Modl::spec_tag(),
        header.tag != Seqs::spec_tag(),
        header.tag != Glbs::spec_tag(),
        header.tag != Texs::spec_tag(),
        header.tag != Snds::spec_tag(),
    ensures
        match Mdlx::spec_chunk(m, version, header, span) {
            Ok((leftover, m2)) => leftover.len() == 0 ==> step_parsed(
                m,
                m2,
                header.tag,
                spec_version(m, version),
            ),
            Err(_) => true,
        },
{
    Mtls::lemma_chunk_parse_wire(spec_version(m, version), span);
    match Mtls::spec_parse(spec_version(m, version), span) {
        Ok((leftover, chunk)) => {
            if leftover.len() == 0 {
                assert(leftover =~= Seq::<u8>::empty());
            }
        },
        Err(_) => {},
    }
}

/// The chunk `txan` that was read from a span is parsed back from its own bytes
/// at the version at which it was read, and no other chunk has changed.
#[verifier::rlimit(50)]
proof fn lemma_parsed_txan(m: MdlxModel, version: Option<u32>, header: Header, span: Seq<u8>)
    requires
        span_announced(span),
        Header::spec_parse(None, span) is Ok,
        Header::spec_parse(None, span)->Ok_0.1 == header,
        header.tag == Txan::spec_tag(),
        header.tag != Vers::spec_tag(),
        header.tag != Modl::spec_tag(),
        header.tag != Seqs::spec_tag(),
        header.tag != Glbs::spec_tag(),
        header.tag != Texs::spec_tag(),
        header.tag != Snds::spec_tag(),
        header.tag != Mtls::spec_tag(),
    ensures
        match Mdlx::spec_chunk(m, version, header, span) {
            Ok((leftover, m2)) => leftover.len() == 0 ==> step_parsed(
                m,
                m2,
                header.tag,
                spec_version(m, version),
            ),
            Err(_) => true,
        },
{
    Txan::lemma_chunk_parse_wire(spec_version(m, version), span);
    match Txan::spec_parse(spec_version(m, version), span) {
        Ok((leftover, chunk)) => {
            if leftover.len() == 0 {
                assert(leftover =~= Seq::<u8>::empty());
            }
        },
        Err(_) => {},
    }
}

/// The chunk `geos` that was read from a span is parsed back from its own bytes
/// at the version at which it was read, and no other chunk has changed.
#[verifier::rlimit(50)]
proof fn lemma_parsed_geos(m: MdlxModel, version: Option<u32>, header: Header, span: Seq<u8>)
    requires
        span_announced(span),
        Header::spec_parse(None, span) is Ok,
        Header::spec_parse(None, span)->Ok_0.1 == header,
        header.tag == Geos::spec_tag(),
        header.tag != Vers::spec_tag(),
        header.tag != Modl::spec_tag(),
        header.tag != Seqs::spec_tag(),
        header.tag != Glbs::spec_tag(),
        header.tag != Texs::spec_tag(),
        header.tag != Snds::spec_tag(),
        header.tag != Mtls::spec_tag(),
        header.tag != Txan::spec_tag(),
    ensures
        match Mdlx::spec_chunk(m, version, header, span) {
            Ok((leftover, m2)) => leftover.len() == 0 ==> step_parsed(
                m,
                m2,
                header.tag,
                spec_version(m, version),
            ),
            Err(_) => true,
        },
{
    Geos::lemma_chunk_parse_wire(spec_version(m, version), span);
    match Geos::spec_parse(spec_version(m, version), span) {
        Ok((leftover, chunk)) => {
            if leftover.len() == 0 {
                assert(leftover =~= Seq::<u8>::empty());
            }
        },
        Err(_) => {},
    }
}

/// The chunk `geoa` that was read from a span is parsed back from its own bytes
/// at the version at which it was read, and no other chunk has changed.
#[verifier::rlimit(50)]
proof fn lemma_parsed_geoa(m: MdlxModel, version: Option<u32>, header: Header, span: Seq<u8>)
    requires
        span_announced(span),
        Header::spec_parse(None, span) is Ok,
        Header::spec_parse(None, span)->Ok_0.1 == header,
        header.tag == Geoa::spec_tag(),
        header.tag != Vers::spec_tag(),
        header.tag != Modl::spec_tag(),
        header.tag != Seqs::spec_tag(),
        header.tag != Glbs::spec_tag(),
        header.tag != Texs::spec_tag(),
        header.tag != Snds::spec_tag(),
        header.tag != Mtls::spec_tag(),
        header.tag != Txan::spec_tag(),
        header.tag != Geos::spec_tag(),
    ensures
        match Mdlx::spec_chunk(m, version, header, span) {
            Ok((leftover, m2)) => leftover.len() == 0 ==> step_parsed(
                m,
                m2,
                header.tag,
                spec_version(m, version),
            ),
            Err(_) => true,
        },
{
    Geoa::lemma_chunk_parse_wire(spec_version(m, version), span);
    match Geoa::spec_parse(spec_version(m, version), span) {
        Ok((leftover, chunk)) => {
            if leftover.len() == 0 {
                assert(leftover =~= Seq::<u8>::empty());
            }
        },
        Err(_) => {},
    }
}

/// The chunk `bone` that was read from a span is parsed back from its own bytes
/// at the version at which it was read, and no other chunk has changed.
#[verifier::rlimit(50)]
proof fn lemma_parsed_bone(m: MdlxModel, version: Option<u32>, header: Header, span: Seq<u8>)
    requires
        span_announced(span),
        Header::spec_parse(None, span) is Ok,
        Header::spec_parse(None, span)->Ok_0.1 == header,
        header.tag == BoneChunk::spec_tag(),
        header.tag != Vers::spec_tag(),
        header.tag != Modl::spec_tag(),
        header.tag != Seqs::spec_tag(),
        header.tag != Glbs::spec_tag(),
        header.tag != Texs::spec_tag(),
        header.tag != Snds::spec_tag(),
        header.tag != Mtls::spec_tag(),
        header.tag != Txan::spec_tag(),
        header.tag != Geos::spec_tag(),
        header.tag != Geoa::spec_tag(),
    ensures
        match Mdlx::spec_chunk(m, version, header, span) {
            Ok((leftover, m2)) => leftover.len() == 0 ==> step_parsed(
                m,
                m2,
                header.tag,
                spec_version(m, version),
            ),
            Err(_) => true,
        },
{
    BoneChunk::lemma_chunk_parse_wire(spec_version(m, version), span);
    match BoneChunk::spec_parse(spec_version(m, version), span) {
        Ok((leftover, chunk)) => {
            if leftover.len() == 0 {
                assert(leftover =~= Seq::<u8>::empty());
            }
        },
        Err(_) => {},
    }
}

/// The chunk `lite` that was read from a span is parsed back from its own bytes
/// at the version at which it was read, and no other chunk has changed.
#[verifier::rlimit(50)]
proof fn lemma_parsed_lite(m: MdlxModel, version: Option<u32>, header: Header, span: Seq<u8>)
    requires
        span_announced(span),
        Header::spec_parse(None, span) is Ok,
        Header::spec_parse(None, span)->Ok_0.1 == header,
        header.tag == Lite::spec_tag(),
        header.tag != Vers::spec_tag(),
        header.tag != Modl::spec_tag(),
        header.tag != Seqs::spec_tag(),
        header.tag != Glbs::spec_tag(),
        header.tag != Texs::spec_tag(),
        header.tag != Snds::spec_tag(),
        header.tag != Mtls::spec_tag(),
        header.tag != Txan::spec_tag(),
        header.tag != Geos::spec_tag(),
        header.tag != Geoa::spec_tag(),
        header.tag != BoneChunk::spec_tag(),
    ensures
        match Mdlx::spec_chunk(m, version, header, span) {
            Ok((leftover, m2)) => leftover.len() == 0 ==> step_parsed(
                m,
                m2,
                header.tag,
                spec_version(m, version),
            ),
            Err(_) => true,
        },
{
    Lite::lemma_chunk_parse_wire(spec_version(m, version), span);
    match Lite::spec_parse(spec_version(m, version), span) {
        Ok((leftover, chunk)) => {
            if leftover.len() == 0 {
                assert(leftover =~= Seq::<u8>::empty());
            }
        },
        Err(_) => {},
    }
}

/// The chunk `help` that was read from a span is parsed back from its own bytes
/// at the version at which it was read, and no other chunk has changed.
#[verifier::rlimit(50)]
proof fn lemma_parsed_help(m: MdlxModel, version: Option<u32>, header: Header, span: Seq<u8>)
    requires
        span_announced(span),
        Header::spec_parse(None, span) is Ok,
        Header::spec_parse(None, span)->Ok_0.1 == header,
        header.tag == Help::spec_tag(),
        header.tag != Vers::spec_tag(),
        header.tag != Modl::spec_tag(),
        header.tag != Seqs::spec_tag(),
        header.tag != Glbs::spec_tag(),
        header.tag != Texs::spec_tag(),
        header.tag != Snds::spec_tag(),
        header.tag != Mtls::spec_tag(),
        header.tag != Txan::spec_tag(),
        header.tag != Geos::spec_tag(),
        header.tag != Geoa::spec_tag(),
        header.tag != BoneChunk::spec_tag(),
        header.tag != Lite::spec_tag(),
    ensures
        match Mdlx::spec_chunk(m, version, header, span) {
            Ok((leftover, m2)) => leftover.len() == 0 ==> step_parsed(
                m,
                m2,
                header.tag,
                spec_version(m, version),
            ),
            Err(_) => true,
        },
{
    Help::lemma_chunk_parse_wire(spec_version(m, version), span);
    match Help::spec_parse(spec_version(m, version), span) {
        Ok((leftover, chunk)) => {
            if leftover.len() == 0 {
                assert(leftover =~= Seq::<u8>::empty());
            }
        },
        Err(_) => {},
    }
}

/// The chunk `atch` that was read from a span is parsed back from its own bytes
/// at the version at which it was read, and no other chunk has changed.
#[verifier::rlimit(50)]
proof fn lemma_parsed_atch(m: MdlxModel, version: Option<u32>, header: Header, span: Seq<u8>)
    requires
        span_announced(span),
        Header::spec_parse(None, span) is Ok,
        Header::spec_parse(None, span)->Ok_0.1 == header,
        header.tag == Atch::spec_tag(),
        header.tag != Vers::spec_tag(),
        header.tag != Modl::spec_tag(),
        header.tag != Seqs::spec_tag(),
        header.tag != Glbs::spec_tag(),
        header.tag != Texs::spec_tag(),
        header.tag != Snds::spec_tag(),
        header.tag != Mtls::spec_tag(),
        header.tag != Txan::spec_tag(),
        header.tag != Geos::spec_tag(),
        header.tag != Geoa::spec_tag(),
        header.tag != BoneChunk::spec_tag(),
        header.tag != Lite::spec_tag(),
        header.tag != Help::spec_tag(),
    ensures
        match Mdlx::spec_chunk(m, version, header, span) {
            Ok((leftover, m2)) => leftover.len() == 0 ==> step_parsed(
                m,
                m2,
                header.tag,
                spec_version(m, version),
            ),
            Err(_) => true,
        },
{
    Atch::lemma_chunk_parse_wire(spec_version(m, version), span);
    match Atch::spec_parse(spec_version(m, version), span) {
        Ok((leftover, chunk)) => {
            if leftover.len() == 0 {
                assert(leftover =~= Seq::<u8>::empty());
            }
        },
        Err(_) => {},
    }
}

/// The chunk `pivt` that was read from a span is parsed back from its own bytes
/// at the version at which it was read, and no other chunk has changed.
#[verifier::rlimit(50)]
proof fn lemma_parsed_pivt(m: MdlxModel, version: Option<u32>, header: Header, span: Seq<u8>)
    requires
        span_announced(span),
        Header::spec_parse(None, span) is Ok,
        Header::spec_parse(None, span)->Ok_0.1 == header,
        header.tag == Pivt::spec_tag(),
        header.tag != Vers::spec_tag(),
        header.tag != Modl::spec_tag(),
        header.tag != Seqs::spec_tag(),
        header.tag != Glbs::spec_tag(),
        header.tag != Texs::spec_tag(),
        header.tag != Snds::spec_tag(),
        header.tag != Mtls::spec_tag(),
        header.tag != Txan::spec_tag(),
        header.tag != Geos::spec_tag(),
        header.tag != Geoa::spec_tag(),
        header.tag != BoneChunk::spec_tag(),
        header.tag != Lite::spec_tag(),
        header.tag != Help::spec_tag(),
        header.tag != Atch::spec_tag(),
    ensures
        match Mdlx::spec_chunk(m, version, header, span) {
            Ok((leftover, m2)) => leftover.len() == 0 ==> step_parsed(
                m,
                m2,
                header.tag,
                spec_version(m, version),
            ),
            Err(_) => true,
        },
{
    Pivt::lemma_chunk_parse_wire(spec_version(m, version), span);
    match Pivt::spec_parse(spec_version(m, version), span) {
        Ok((leftover, chunk)) => {
            if leftover.len() == 0 {
                assert(leftover =~= Seq::<u8>::empty());
            }
        },
        Err(_) => {},
    }
}

/// The chunk `prem` that was read from a span is parsed back from its own bytes
/// at the version at which it was read, and no other chunk has changed.
#[verifier::rlimit(50)]
proof fn lemma_parsed_prem(m: MdlxModel, version: Option<u32>, header: Header, span: Seq<u8>)
    requires
        span_announced(span),
        Header::spec_parse(None, span) is Ok,
        Header::spec_parse(None, span)->Ok_0.1 == header,
        header.tag == Prem::spec_tag(),
        header.tag != Vers::spec_tag(),
        header.tag != Modl::spec_tag(),
        header.tag != Seqs::spec_tag(),
        header.tag != Glbs::spec_tag(),
        header.tag != Texs::spec_tag(),
        header.tag != Snds::spec_tag(),
        header.tag != Mtls::spec_tag(),
        header.tag != Txan::spec_tag(),
        header.tag != Geos::spec_tag(),
        header.tag != Geoa::spec_tag(),
        header.tag != BoneChunk::spec_tag(),
        header.tag != Lite::spec_tag(),
        header.tag != Help::spec_tag(),
        header.tag != Atch::spec_tag(),
        header.tag != Pivt::spec_tag(),
    ensures
        match Mdlx::spec_chunk(m, version, header, span) {
            Ok((leftover, m2)) => leftover.len() == 0 ==> step_parsed(
                m,
                m2,
                header.tag,
                spec_version(m, version),
            ),
            Err(_) => true,
        },
{
    Prem::lemma_chunk_parse_wire(spec_version(m, version), span);
    match Prem::spec_parse(spec_version(m, version), span) {
        Ok((leftover, chunk)) => {
            if leftover.len() == 0 {
                assert(leftover =~= Seq::<u8>::empty());
            }
        },
        Err(_) => {},
    }
}

/// The chunk `pre2` that was read from a span is parsed back from its own bytes
/// at the version at which it was read, and no other chunk has changed.
#[verifier::rlimit(50)]
proof fn lemma_parsed_pre2(m: MdlxModel, version: Option<u32>, header: Header, span: Seq<u8>)
    requires
        span_announced(span),
        Header::spec_parse(None, span) is Ok,
        Header::spec_parse(None, span)->Ok_0.1 == header,
        header.tag == Pre2::spec_tag(),
        header.tag != Vers::spec_tag(),
        header.tag != Modl::spec_tag(),
        header.tag != Seqs::spec_tag(),
        header.tag != Glbs::spec_tag(),
        header.tag != Texs::spec_tag(),
        header.tag != Snds::spec_tag(),
        header.tag != Mtls::spec_tag(),
        header.tag != Txan::spec_tag(),
        header.tag != Geos::spec_tag(),
        header.tag != Geoa::spec_tag(),
        header.tag != BoneChunk::spec_tag(),
        header.tag != Lite::spec_tag(),
        header.tag != Help::spec_tag(),
        header.tag != Atch::spec_tag(),
        header.tag != Pivt::spec_tag(),
        header.tag != Prem::spec_tag(),
    ensures
        match Mdlx::spec_chunk(m, version, header, span) {
            Ok((leftover, m2)) => leftover.len() == 0 ==> step_parsed(
                m,
                m2,
                header.tag,
                spec_version(m, version),
            ),
            Err(_) => true,
        },
{
    Pre2::lemma_chunk_parse_wire(spec_version(m, version), span);
    match Pre2::spec_parse(spec_version(m, version), span) {
        Ok((leftover, chunk)) => {
            if leftover.len() == 0 {
                assert(leftover =~= Seq::<u8>::empty());
            }
        },
        Err(_) => {},
    }
}

/// The chunk `ribb` that was read from a span is parsed back from its own bytes
/// at the version at which it was read, and no other chunk has changed.
#[verifier::rlimit(50)]
proof fn lemma_parsed_ribb(m: MdlxModel, version: Option<u32>, header: Header, span: Seq<u8>)
    requires
        span_announced(span),
        Header::spec_parse(None, span) is Ok,
        Header::spec_parse(None, span)->Ok_0.1 == header,
        header.tag == Ribb::spec_tag(),
        header.tag != Vers::spec_tag(),
        header.tag != Modl::spec_tag(),
        header.tag != Seqs::spec_tag(),
        header.tag != Glbs::spec_tag(),
        header.tag != Texs::spec_tag(),
        header.tag != Snds::spec_tag(),
        header.tag != Mtls::spec_tag(),
        header.tag != Txan::spec_tag(),
        header.tag != Geos::spec_tag(),
        header.tag != Geoa::spec_tag(),
        header.tag != BoneChunk::spec_tag(),
        header.tag != Lite::spec_tag(),
        header.tag != Help::spec_tag(),
        header.tag != Atch::spec_tag(),
        header.tag != Pivt::spec_tag(),
        header.tag != Prem::spec_tag(),
        header.tag != Pre2::spec_tag(),
    ensures
        match Mdlx::spec_chunk(m, version, header, span) {
            Ok((leftover, m2)) => leftover.len() == 0 ==> step_parsed(
                m,
                m2,
                header.tag,
                spec_version(m, version),
            ),
            Err(_) => true,
        },
{
    Ribb::lemma_chunk_parse_wire(spec_version(m, version), span);
    match Ribb::spec_parse(spec_version(m, version), span) {
        Ok((leftover, chunk)) => {
            if leftover.len() == 0 {
                assert(leftover =~= Seq::<u8>::empty());
            }
        },
        Err(_) => {},
    }
}

/// The chunk `evts` that was read from a span is parsed back from its own bytes
/// at the version at which it was read, and no other chunk has changed.
#[verifier::rlimit(50)]
proof fn lemma_parsed_evts(m: MdlxModel, version: Option<u32>, header: Header, span: Seq<u8>)
    requires
        span_announced(span),
        Header::spec_parse(None, span) is Ok,
        Header::spec_parse(None, span)->Ok_0.1 == header,
        header.tag == Evts::spec_tag(),
        header.tag != Vers::spec_tag(),
        header.tag != Modl::spec_tag(),
        header.tag != Seqs::spec_tag(),
        header.tag != Glbs::spec_tag(),
        header.tag != Texs::spec_tag(),
        header.tag != Snds::spec_tag(),
        header.tag != Mtls::spec_tag(),
        header.tag != Txan::spec_tag(),
        header.tag != Geos::spec_tag(),
        header.tag != Geoa::spec_tag(),
        header.tag != BoneChunk::spec_tag(),
        header.tag != Lite::spec_tag(),
        header.tag != Help::spec_tag(),
        header.tag != Atch::spec_tag(),
        header.tag != Pivt::spec_tag(),
        header.tag != Prem::spec_tag(),
        header.tag != Pre2::spec_tag(),
        header.tag != Ribb::spec_tag(),
    ensures
        match Mdlx::spec_chunk(m, version, header, span) {
            Ok((leftover, m2)) => leftover.len() == 0 ==> step_parsed(
                m,
                m2,
                header.tag,
                spec_version(m, version),
            ),
            Err(_) => true,
        },
{
    Evts::lemma_chunk_parse_wire(spec_version(m, version), span);
    match Evts::spec_parse(spec_version(m, version), span) {
        Ok((leftover, chunk)) => {
            if leftover.len() == 0 {
                assert(leftover =~= Seq::<u8>::empty());
            }
        },
        Err(_) => {},
    }
}

/// The chunk `cams` that was read from a span is parsed back from its own bytes
/// at the version at which it was read, and no other chunk has changed.
#[verifier::rlimit(50)]
proof fn lemma_parsed_cams(m: MdlxModel, version: Option<u32>, header: Header, span: Seq<u8>)
    requires
        span_announced(span),
        Header::spec_parse(None, span) is Ok,
        Header::spec_parse(None, span)->Ok_0.1 == header,
        header.tag == Cams::spec_tag(),
        header.tag != Vers::spec_tag(),
        header.tag != Modl::spec_tag(),
        header.tag != Seqs::spec_tag(),
        header.tag != Glbs::spec_tag(),
        header.tag != Texs::spec_tag(),
        header.tag != Snds::spec_tag(),
        header.tag != Mtls::spec_tag(),
        header.tag != Txan::spec_tag(),
        header.tag != Geos::spec_tag(),
        header.tag != Geoa::spec_tag(),
        header.tag != BoneChunk::spec_tag(),
        header.tag != Lite::spec_tag(),
        header.tag != Help::spec_tag(),
        header.tag != Atch::spec_tag(),
        header.tag != Pivt::spec_tag(),
        header.tag != Prem::spec_tag(),
        header.tag != Pre2::spec_tag(),
        header.tag != Ribb::spec_tag(),
        header.tag != Evts::spec_tag(),
    ensures
        match Mdlx::spec_chunk(m, version, header, span) {
            Ok((leftover, m2)) => leftover.len() == 0 ==> step_parsed(
                m,
                m2,
                header.tag,
                spec_version(m, version),
            ),
            Err(_) => true,
        },
{
    Cams::lemma_chunk_parse_wire(spec_version(m, version), span);
    match Cams::spec_parse(spec_version(m, version), span) {
        Ok((leftover, chunk)) => {
            if leftover.len() == 0 {
                assert(leftover =~= Seq::<u8>::empty());
            }
        },
        Err(_) => {},
    }
}

/// The chunk `clid` that was read from a span is parsed back from its own bytes
/// at the version at which it was read, and no other chunk has changed.
#[verifier::rlimit(50)]
proof fn lemma_parsed_clid(m: MdlxModel, version: Option<u32>, header: Header, span: Seq<u8>)
    requires
        span_announced(span),
        Header::spec_parse(None, span) is Ok,
        Header::spec_parse(None, span)->Ok_0.1 == header,
        header.tag == Clid::spec_tag(),
        header.tag != Vers::spec_tag(),
        header.tag != Modl::spec_tag(),
        header.tag != Seqs::spec_tag(),
        header.tag != Glbs::spec_tag(),
        header.tag != Texs::spec_tag(),
        header.tag != Snds::spec_tag(),
        header.tag != Mtls::spec_tag(),
        header.tag != Txan::spec_tag(),
        header.tag != Geos::spec_tag(),
        header.tag != Geoa::spec_tag(),
        header.tag != BoneChunk::spec_tag(),
        header.tag != Lite::spec_tag(),
        header.tag != Help::spec_tag(),
        header.tag != Atch::spec_tag(),
        header.tag != Pivt::spec_tag(),
        header.tag != Prem::spec_tag(),
        header.tag != Pre2::spec_tag(),
        header.tag != Ribb::spec_tag(),
        header.tag != Evts::spec_tag(),
        header.tag != Cams::spec_tag(),
    ensures
        match Mdlx::spec_chunk(m, version, header, span) {
            Ok((leftover, m2)) => leftover.len() == 0 ==> step_parsed(
                m,
                m2,
                header.tag,
                spec_version(m, version),
            ),
            Err(_) => true,
        },
{
    Clid::lemma_chunk_parse_wire(spec_version(m, version), span);
    match Clid::spec_parse(spec_version(m, version), span) {
        Ok((leftover, chunk)) => {
            if leftover.len() == 0 {
                assert(leftover =~= Seq::<u8>::empty());
            }
        },
        Err(_) => {},
    }
}

/// The chunk `bpos` that was read from a span is parsed back from its own bytes
/// at the version at which it was read, and no other chunk has changed.
#[verifier::rlimit(50)]
proof fn lemma_parsed_bpos(m: MdlxModel, version: Option<u32>, header: Header, span: Seq<u8>)
    requires
        span_announced(span),
        Header::spec_parse(None, span) is Ok,
        Header::spec_parse(None, span)->Ok_0.1 == header,
        header.tag == Bpos::spec_tag(),
        header.tag != Vers::spec_tag(),
        header.tag != Modl::spec_tag(),
        header.tag != Seqs::spec_tag(),
        header.tag != Glbs::spec_tag(),
        header.tag != Texs::spec_tag(),
        header.tag != Snds::spec_tag(),
        header.tag != Mtls::spec_tag(),
        header.tag != Txan::spec_tag(),
        header.tag != Geos::spec_tag(),
        header.tag != Geoa::spec_tag(),
        header.tag != BoneChunk::spec_tag(),
        header.tag != Lite::spec_tag(),
        header.tag != Help::spec_tag(),
        header.tag != Atch::spec_tag(),
        header.tag != Pivt::spec_tag(),
        header.tag != Prem::spec_tag(),
        header.tag != Pre2::spec_tag(),
        header.tag != Ribb::spec_tag(),
        header.tag != Evts::spec_tag(),
        header.tag != Cams::spec_tag(),
        header.tag != Clid::spec_tag(),
    ensures
        match Mdlx::spec_chunk(m, version, header, span) {
            Ok((leftover, m2)) => leftover.len() == 0 ==> step_parsed(
                m,
                m2,
                header.tag,
                spec_version(m, version),
            ),
            Err(_) => true,
        },
{
    Bpos::lemma_chunk_parse_wire(spec_version(m, version), span);
    match Bpos::spec_parse(spec_version(m, version), span) {
        Ok((leftover, chunk)) => {
            if leftover.len() == 0 {
                assert(leftover =~= Seq::<u8>::empty());
            }
        },
        Err(_) => {},
    }
}

/// The chunk `fafx` that was read from a span is parsed back from its own bytes
/// at the version at which it was read, and no other chunk has changed.
#[verifier::rlimit(50)]
proof fn lemma_parsed_fafx(m: MdlxModel, version: Option<u32>, header: Header, span: Seq<u8>)
    requires
        span_announced(span),
        Header::spec_parse(None, span) is Ok,
        Header::spec_parse(None, span)->Ok_0.1 == header,
        header.tag == Fafx::spec_tag(),
        header.tag != Vers::spec_tag(),
        header.tag != Modl::spec_tag(),
        header.tag != Seqs::spec_tag(),
        header.tag != Glbs::spec_tag(),
        header.tag != Texs::spec_tag(),
        header.tag != Snds::spec_tag(),
        header.tag != Mtls::spec_tag(),
        header.tag != Txan::spec_tag(),
        header.tag != Geos::spec_tag(),
        header.tag != Geoa::spec_tag(),
        header.tag != BoneChunk::spec_tag(),
        header.tag != Lite::spec_tag(),
        header.tag != Help::spec_tag(),
        header.tag != Atch::spec_tag(),
        header.tag != Pivt::spec_tag(),
        header.tag != Prem::spec_tag(),
        header.tag != Pre2::spec_tag(),
        header.tag != Ribb::spec_tag(),
        header.tag != Evts::spec_tag(),
        header.tag != Cams::spec_tag(),
        header.tag != Clid::spec_tag(),
        header.tag != Bpos::spec_tag(),
    ensures
        match Mdlx::spec_chunk(m, version, header, span) {
            Ok((leftover, m2)) => leftover.len() == 0 ==> step_parsed(
                m,
                m2,
                header.tag,
                spec_version(m, version),
            ),
            Err(_) => true,
        },
{
    Fafx::lemma_chunk_parse_wire(spec_version(m, version), span);
    match Fafx::spec_parse(spec_version(m, version), span) {
        Ok((leftover, chunk)) => {
            if leftover.len() == 0 {
                assert(leftover =~= Seq::<u8>::empty());
            }
        },
        Err(_) => {},
    }
}

/// The chunk `corn` that was read from a span is parsed back from its own bytes
/// at the version at which it was read, and no other chunk has changed.
#[verifier::rlimit(50)]
proof fn lemma_parsed_corn(m: MdlxModel, version: Option<u32>, header: Header, span: Seq<u8>)
    requires
        span_announced(span),
        Header::spec_parse(None, span) is Ok,
        Header::spec_parse(None, span)->Ok_0.1 == header,
        header.tag == Corn::spec_tag(),
        header.tag != Vers::spec_tag(),
        header.tag != Modl::spec_tag(),
        header.tag != Seqs::spec_tag(),
        header.tag != Glbs::spec_tag(),
        header.tag != Texs::spec_tag(),
        header.tag != Snds::spec_tag(),
        header.tag != Mtls::spec_tag(),
        header.tag != Txan::spec_tag(),
        header.tag != Geos::spec_tag(),
        header.tag != Geoa::spec_tag(),
        header.tag != BoneChunk::spec_tag(),
        header.tag != Lite::spec_tag(),
        header.tag != Help::spec_tag(),
        header.tag != Atch::spec_tag(),
        header.tag != Pivt::spec_tag(),
        header.tag != Prem::spec_tag(),
        header.tag != Pre2::spec_tag(),
        header.tag != Ribb::spec_tag(),
        header.tag != Evts::spec_tag(),
        header.tag != Cams::spec_tag(),
        header.tag != Clid::spec_tag(),
        header.tag != Bpos::spec_tag(),
        header.tag != Fafx::spec_tag(),
    ensures
        match Mdlx::spec_chunk(m, version, header, span) {
            Ok((leftover, m2)) => leftover.len() == 0 ==> step_parsed(
                m,
                m2,
                header.tag,
                spec_version(m, version),
            ),
            Err(_) => true,
        },
{
    Corn::lemma_chunk_parse_wire(spec_version(m, version), span);
    match Corn::spec_parse(spec_version(m, version), span) {
        Ok((leftover, chunk)) => {
            if leftover.len() == 0 {
                assert(leftover =~= Seq::<u8>::empty());
            }
        },
        Err(_) => {},
    }
}

impl Mdlx {
    /// The chunk of `m` under the tag is one of the model, is present, and is
    /// parsed back from its own bytes at the version: the bytes are a span
    /// that its header announces, and the chunk is read from them with nothing
    /// left.
    pub open spec fn slot_reparses(m: MdlxModel, tag: Tag, version: Option<u32>) -> bool {
        if tag == Vers::spec_tag() {
            m.vers is Some && chunk_reparses::<Vers>(m.vers->0, version)
        } else if tag == Modl::spec_tag() {
            m.modl is Some && chunk_reparses::<Modl>(m.modl->0, version)
        } else if tag == Seqs::spec_tag() {
            m.seqs is Some && chunk_reparses::<Seqs>(m.seqs->0, version)
        } else if tag == Glbs::spec_tag() {
            m.glbs is Some && chunk_reparses::<Glbs>(m.glbs->0, version)
        } else if tag == Texs::spec_tag() {
            m.texs is Some && chunk_reparses::<Texs>(m.texs->0, version)
        } else if tag == Snds::spec_tag() {
            m.snds is Some && chunk_reparses::<Snds>(m.snds->0, version)
        } else if tag == Mtls::spec_tag() {
            m.mtls is Some && chunk_reparses::<Mtls>(m.mtls->0, version)
        } else if tag == Txan::spec_tag() {
            m.txan is Some && chunk_reparses::<Txan>(m.txan->0, version)
        } else if tag == Geos::spec_tag() {
            m.geos is Some && chunk_reparses::<Geos>(m.geos->0, version)
        } else if tag == Geoa::spec_tag() {
            m.geoa is Some && chunk_reparses::<Geoa>(m.geoa->0, version)
        } else if tag == BoneChunk::spec_tag() {
            m.bone is Some && chunk_reparses::<BoneChunk>(m.bone->0, version)
        } else if tag == Lite::spec_tag() {
            m.lite is Some && chunk_reparses::<Lite>(m.lite->0, version)
        } else if tag == Help::spec_tag() {
            m.help is Some && chunk_reparses::<Help>(m.help->0, version)
        } else if tag == Atch::spec_tag() {
            m.atch is Some && chunk_reparses::<Atch>(m.atch->0, version)
        } else if tag == Pivt::spec_tag() {
            m.pivt is Some && chunk_reparses::<Pivt>(m.pivt->0, version)
        } else if tag == Prem::spec_tag() {
            m.prem is Some && chunk_reparses::<Prem>(m.prem->0, version)
        } else if tag == Pre2::spec_tag() {
            m.pre2 is Some && chunk_reparses::<Pre2>(m.pre2->0, version)
        } else if tag == Ribb::spec_tag() {
            m.ribb is Some && chunk_reparses::<Ribb>(m.ribb->0, version)
        } else if tag == Evts::spec_tag() {
            m.evts is Some && chunk_reparses::<Evts>(m.evts->0, version)
        } else if tag == Cams::spec_tag() {
            m.cams is Some && chunk_reparses::<Cams>(m.cams->0, version)
        } else if tag == Clid::spec_tag() {
            m.clid is Some && chunk_reparses::<Clid>(m.clid->0, version)
        } else if tag == Bpos::spec_tag() {
            m.bpos is Some && chunk_reparses::<Bpos>(m.bpos->0, version)
        } else if tag == Fafx::spec_tag() {
            m.fafx is Some && chunk_reparses::<Fafx>(m.fafx->0, version)
        } else if tag == Corn::spec_tag() {
            m.corn is Some && chunk_reparses::<Corn>(m.corn->0, version)
        } else {
            false
        }
    }

    /// The version chunk is met at most once, and before all others.
    pub open spec fn version_settled(m: MdlxModel) -> bool {
        forall|i: int|
            0 <= i < m.order().len() && #[trigger] m.order()[i] == Vers::spec_tag() ==> i == 0
    }

    /// A well-formed chunk is parsed back from its own bytes.
    #[verifier::rlimit(50)]
    proof fn lemma_well_formed_reparses(m: MdlxModel, tag: Tag, version: Option<u32>)
        requires
            Mdlx::slot_well_formed(m, tag, version),
        ensures
            Mdlx::slot_reparses(m, tag, version),
    {
        if tag == Vers::spec_tag() {
            Vers::lemma_chunk_wire_parse(m.vers->0, version);
        } else if tag == Modl::spec_tag() {
            Modl::lemma_chunk_wire_parse(m.modl->0, version);
        } else if tag == Seqs::spec_tag() {
            Seqs::lemma_chunk_wire_parse(m.seqs->0, version);
        } else if tag == Glbs::spec_tag() {
            Glbs::lemma_chunk_wire_parse(m.glbs->0, version);
        } else if tag == Texs::spec_tag() {
            Texs::lemma_chunk_wire_parse(m.texs->0, version);
        } else if tag == Snds::spec_tag() {
            Snds::lemma_chunk_wire_parse(m.snds->0, version);
        } else if tag == Mtls::spec_tag() {
            Mtls::lemma_chunk_wire_parse(m.mtls->0, version);
        } else if tag == Txan::spec_tag() {
            Txan::lemma_chunk_wire_parse(m.txan->0, version);
        } else if tag == Geos::spec_tag() {
            Geos::lemma_chunk_wire_parse(m.geos->0, version);
        } else if tag == Geoa::spec_tag() {
            Geoa::lemma_chunk_wire_parse(m.geoa->0, version);
        } else if tag == BoneChunk::spec_tag() {
            BoneChunk::lemma_chunk_wire_parse(m.bone->0, version);
        } else if tag == Lite::spec_tag() {
            Lite::lemma_chunk_wire_parse(m.lite->0, version);
        } else if tag == Help::spec_tag() {
            Help::lemma_chunk_wire_parse(m.help->0, version);
        } else if tag == Atch::spec_tag() {
            Atch::lemma_chunk_wire_parse(m.atch->0, version);
        } else if tag == Pivt::spec_tag() {
            Pivt::lemma_chunk_wire_parse(m.pivt->0, version);
        } else if tag == Prem::spec_tag() {
            Prem::lemma_chunk_wire_parse(m.prem->0, version);
        } else if tag == Pre2::spec_tag() {
            Pre2::lemma_chunk_wire_parse(m.pre2->0, version);
        } else if tag == Ribb::spec_tag() {
            Ribb::lemma_chunk_wire_parse(m.ribb->0, version);
        } else if tag == Evts::spec_tag() {
            Evts::lemma_chunk_wire_parse(m.evts->0, version);
        } else if tag == Cams::spec_tag() {
            Cams::lemma_chunk_wire_parse(m.cams->0, version);
        } else if tag == Clid::spec_tag() {
            Clid::lemma_chunk_wire_parse(m.clid->0, version);
        } else if tag == Bpos::spec_tag() {
            Bpos::lemma_chunk_wire_parse(m.bpos->0, version);
        } else if tag == Fafx::spec_tag() {
            Fafx::lemma_chunk_wire_parse(m.fafx->0, version);
        } else if tag == Corn::spec_tag() {
            Corn::lemma_chunk_wire_parse(m.corn->0, version);
        }
    }

    /// A chunk with a known tag that was read from a span is parsed back from
    /// its own bytes at the version at which it was read.
    proof fn lemma_chunk_parsed(m: MdlxModel, version: Option<u32>, header: Header, span: Seq<u8>)
        requires
            span_announced(span),
            Header::spec_parse(None, span) is Ok,
            Header::spec_parse(None, span)->Ok_0.1 == header,
        ensures
            match Mdlx::spec_chunk(m, version, header, span) {
                Ok((leftover, m2)) => leftover.len() == 0 && Mdlx::knows(header.tag)
                    ==> step_parsed(m, m2, header.tag, spec_version(m, version)),
                Err(_) => true,
            },
    {
        if header.tag == Vers::spec_tag() {
            lemma_parsed_vers(m, version, header, span);
        } else if header.tag == Modl::spec_tag() {
            lemma_parsed_modl(m, version, header, span);
        } else if header.tag == Seqs::spec_tag() {
            lemma_parsed_seqs(m, version, header, span);
        } else if header.tag == Glbs::spec_tag() {
            lemma_parsed_glbs(m, version, header, span);
        } else if header.tag == Texs::spec_tag() {
            lemma_parsed_texs(m, version, header, span);
        } else if header.tag == Snds::spec_tag() {
            lemma_parsed_snds(m, version, header, span);
        } else if header.tag == Mtls::spec_tag() {
            lemma_parsed_mtls(m, version, header, span);
        } else if header.tag == Txan::spec_tag() {
            lemma_parsed_txan(m, version, header, span);
        } else if header.tag == Geos::spec_tag() {
            lemma_parsed_geos(m, version, header, span);
        } else if header.tag == Geoa::spec_tag() {
            lemma_parsed_geoa(m, version, header, span);
        } else if header.tag == BoneChunk::spec_tag() {
            lemma_parsed_bone(m, version, header, span);
        } else if header.tag == Lite::spec_tag() {
            lemma_parsed_lite(m, version, header, span);
        } else if header.tag == Help::spec_tag() {
            lemma_parsed_help(m, version, header, span);
        } else if header.tag == Atch::spec_tag() {
            lemma_parsed_atch(m, version, header, span);
        } else if header.tag == Pivt::spec_tag() {
            lemma_parsed_pivt(m, version, header, span);
        } else if header.tag == Prem::spec_tag() {
            lemma_parsed_prem(m, version, header, span);
        } else if header.tag == Pre2::spec_tag() {
            lemma_parsed_pre2(m, version, header, span);
        } else if header.tag == Ribb::spec_tag() {
            lemma_parsed_ribb(m, version, header, span);
        } else if header.tag == Evts::spec_tag() {
            lemma_parsed_evts(m, version, header, span);
        } else if header.tag == Cams::spec_tag() {
            lemma_parsed_cams(m, version, header, span);
        } else if header.tag == Clid::spec_tag() {
            lemma_parsed_clid(m, version, header, span);
        } else if header.tag == Bpos::spec_tag() {
            lemma_parsed_bpos(m, version, header, span);
        } else if header.tag == Fafx::spec_tag() {
            lemma_parsed_fafx(m, version, header, span);
        } else if header.tag == Corn::spec_tag() {
            lemma_parsed_corn(m, version, header, span);
        }
    }

    /// A model is rescanned from itself when nothing was read.
    proof fn lemma_rescanned_nothing(m: MdlxModel, version: Option<u32>)
        ensures
            rescanned(m, m, version),
    {
        let len = m.order().len() as int;
        assert(m.order().skip(len) =~= Seq::<Tag>::empty());
        assert(m.order().take(len) =~= m.order());
    }

    /// A chunk that is kept is parsed back from its own bytes as before.
    #[verifier::rlimit(50)]
    proof fn lemma_kept_slot(m1: MdlxModel, m: MdlxModel, tags: Seq<Tag>, tag: Tag, w: Option<u32>)
        requires
            kept_unless(m1, m, tags),
            !tags.contains(tag),
        ensures
            Mdlx::slot_reparses(m, tag, w) == Mdlx::slot_reparses(m1, tag, w),
            m.slot_faithful(tag) == m1.slot_faithful(tag),
    {
    }

    /// A step that reads a chunk with a known tag, followed by a scan of the
    /// rest, is a scan.
    #[verifier::rlimit(100)]
    proof fn lemma_rescanned_step(m0: MdlxModel, m1: MdlxModel, m: MdlxModel, tag: Tag, version: Option<u32>)
        requires
            m0.recorded(),
            step_parsed(m0, m1, tag, spec_version(m0, version)),
            rescanned(m1, m, version),
        ensures
            rescanned(m0, m, version),
    {
        let len0 = m0.order().len() as int;
        let len1 = m1.order().len() as int;
        let met = m.order().skip(len0);
        let met1 = m.order().skip(len1);
        let vers = Vers::spec_tag();
        assert(len1 == len0 + 1);
        assert(m.order().take(len1)[len0] == tag);
        assert(m.order().take(len0) =~= m.order().take(len1).take(len0));
        assert(m0.order().push(tag).take(len0) =~= m0.order());
        assert(met[0] == tag);
        assert(met.skip(1) =~= met1);
        assert forall|i: int| 0 <= i < met.len() implies Mdlx::knows(#[trigger] met[i]) by {
            if i > 0 {
                assert(met1[i - 1] == met[i]);
            }
        }
        assert(kept_unless(m0, m, met) && present_if(m0, m, met)) by {
            lemma_contains_front(met, Vers::spec_tag());
            lemma_contains_front(met, Modl::spec_tag());
            lemma_contains_front(met, Seqs::spec_tag());
            lemma_contains_front(met, Glbs::spec_tag());
            lemma_contains_front(met, Texs::spec_tag());
            lemma_contains_front(met, Snds::spec_tag());
            lemma_contains_front(met, Mtls::spec_tag());
            lemma_contains_front(met, Txan::spec_tag());
            lemma_contains_front(met, Geos::spec_tag());
            lemma_contains_front(met, Geoa::spec_tag());
            lemma_contains_front(met, BoneChunk::spec_tag());
            lemma_contains_front(met, Lite::spec_tag());
            lemma_contains_front(met, Help::spec_tag());
            lemma_contains_front(met, Atch::spec_tag());
            lemma_contains_front(met, Pivt::spec_tag());
            lemma_contains_front(met, Prem::spec_tag());
            lemma_contains_front(met, Pre2::spec_tag());
            lemma_contains_front(met, Ribb::spec_tag());
            lemma_contains_front(met, Evts::spec_tag());
            lemma_contains_front(met, Cams::spec_tag());
            lemma_contains_front(met, Clid::spec_tag());
            lemma_contains_front(met, Bpos::spec_tag());
            lemma_contains_front(met, Fafx::spec_tag());
            lemma_contains_front(met, Corn::spec_tag());
        }
        lemma_contains_front(met, vers);
        lemma_contains_front(met, tag);
        if !met.contains(vers) {
            assert forall|i: int| 0 <= i < met.len() implies (m.slot_faithful(
                #[trigger] met[i],
            ) ==> Mdlx::slot_reparses(m, met[i], spec_version(m0, version))) by {
                if i > 0 {
                    assert(met1[i - 1] == met[i]);
                } else if met1.contains(tag) {
                    let j = choose|j: int| 0 <= j < met1.len() && met1[j] == tag;
                    assert(m.slot_faithful(met1[j]) ==> Mdlx::slot_reparses(
                        m,
                        met1[j],
                        spec_version(m1, version),
                    ));
                } else {
                    Mdlx::lemma_kept_slot(m1, m, met1, tag, spec_version(m0, version));
                }
            }
        }
        if met[0] == vers && !met.skip(1).contains(vers) {
            Mdlx::lemma_kept_slot(m1, m, met1, vers, spec_version(m0, version));
            assert forall|i: int| 1 <= i < met.len() implies (m.slot_faithful(
                #[trigger] met[i],
            ) ==> Mdlx::slot_reparses(m, met[i], spec_version(m, version))) by {
                assert(met1[i - 1] == met[i]);
            }
        }
    }

    /// What the chunks of an input were parsed to is a scan of the model.
    proof fn lemma_rescanned(m0: MdlxModel, version: Option<u32>, input: Seq<u8>)
        requires
            m0.recorded(),
        ensures
            match spec_parse_subchunks::<Mdlx>(m0, version, input) {
                Ok((rest, m)) => rescanned(m0, m, version),
                Err(_) => true,
            },
        decreases input.len(),
    {
        if input.len() == 0 {
            Mdlx::lemma_rescanned_nothing(m0, version);
        } else {
            match Header::spec_parse(None, input) {
                Ok((_, header)) => {
                    if input.len() >= header.size + 8 {
                        let n = header.size + 8;
                        let span = input.take(n);
                        let rest1 = input.skip(n);
                        lemma_span_header(input, header);
                        Mdlx::lemma_chunk_step(m0, version, header, span);
                        Mdlx::lemma_chunk_parsed(m0, version, header, span);
                        match Mdlx::spec_chunk(m0, version, header, span) {
                            Ok((leftover, m1)) => {
                                if leftover.len() == 0 {
                                    Mdlx::lemma_rescanned(m1, version, rest1);
                                    match spec_parse_subchunks::<Mdlx>(m1, version, rest1) {
                                        Ok((rest, m)) => {
                                            if Mdlx::knows(header.tag) {
                                                Mdlx::lemma_rescanned_step(
                                                    m0,
                                                    m1,
                                                    m,
                                                    header.tag,
                                                    version,
                                                );
                                            }
                                        },
                                        Err(_) => {},
                                    }
                                }
                            },
                            Err(_) => {},
                        }
                    }
                },
                Err(_) => {},
            }
        }
    }

    /// What a model was parsed to is encoded to bytes that are parsed to the
    /// same model again, if no optional block inside a chunk was met twice and
    /// the version chunk was met at most once and before all others. Other
    /// chunks may have been met more than once, and chunks that the model
    /// does not know may have been skipped.
    #[verifier::rlimit(100)]
    pub proof fn lemma_parse_wire_parse(input: Seq<u8>)
        ensures
            match Mdlx::spec_parse(None, input) {
                Ok((rest, m)) => slots_faithful(m, m.order()) && Mdlx::version_settled(m) ==> {
                    &&& Mdlx::encode_error(m) is None
                    &&& Mdlx::spec_parse(None, Mdlx::wire(m)) == Ok::<_, MdxParseError>(
                        (Seq::<u8>::empty(), m),
                    )
                },
                Err(_) => true,
            },
    {
        match spec_expect_tag(Self::spec_tag(), input) {
            Ok((rest1, _)) => {
                let start = MdlxModel::empty(Some(Seq::empty()));
                Mdlx::lemma_rescanned(start, None, rest1);
                match spec_parse_subchunks::<Mdlx>(start, None, rest1) {
                    Ok((rest, m)) => {
                        if slots_faithful(m, m.order()) && Mdlx::version_settled(m) {
                            let order = m.order();
                            let vers = Vers::spec_tag();
                            assert(order.skip(0) =~= order);
                            assert forall|i: int| 0 <= i < order.len() implies Mdlx::slot_reparses(
                                m,
                                #[trigger] order[i],
                                spec_version(Mdlx::refill_all(start, m, order.take(i)), None),
                            ) by {
                                assert forall|j: int| 0 <= j < order.take(i).len() implies Mdlx::knows(
                                    #[trigger] order.take(i)[j],
                                ) by {
                                    assert(order.take(i)[j] == order[j]);
                                }
                                Mdlx::lemma_refill_fields(start, m, order.take(i));
                                assert(m.slot_faithful(order[i]));
                                if order.contains(vers) {
                                    let k = choose|k: int| 0 <= k < order.len() && order[k] == vers;
                                    assert(k == 0);
                                    assert(!order.skip(1).contains(vers)) by {
                                        if order.skip(1).contains(vers) {
                                            let j = choose|j: int|
                                                0 <= j < order.skip(1).len() && order.skip(1)[j]
                                                    == vers;
                                            assert(order[j + 1] == vers);
                                        }
                                    }
                                    assert(m.slot_faithful(order[0]));
                                    if i > 0 {
                                        assert(order.take(i)[0] == vers);
                                    } else {
                                        assert(order.take(0) =~= Seq::<Tag>::empty());
                                    }
                                } else {
                                    assert(!order.take(i).contains(vers)) by {
                                        if order.take(i).contains(vers) {
                                            let j = choose|j: int|
                                                0 <= j < order.take(i).len() && order.take(i)[j]
                                                    == vers;
                                            assert(order[j] == vers);
                                        }
                                    }
                                }
                            }
                            Mdlx::lemma_refill_parse(start, m, None, order);
                            Mdlx::lemma_refill_fields(start, m, order);
                            assert(Seq::<Tag>::empty() + order =~= order);
                            assert(Mdlx::refill_all(start, m, order) == m);
                            lemma_expect_tag_wire(Self::spec_tag(), wire_slots(m));
                        }
                    },
                    Err(_) => {},
                }
            },
            Err(_) => {},
        }
    }
}

} // verus!
