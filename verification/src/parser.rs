pub mod error;
pub mod primitives;

use crate::parser::error::{Error, MdxParseError};
use crate::types::chunk::mdlx::{Mdlx, MdlxModel};
use crate::types::chunk::utils::{lemma_expect_tag_wire, Header};
use crate::types::chunk::{
    all_known, known_part, lemma_known_part_all_known, lemma_known_part_parse,
    lemma_subchunks_parse_wire, slots_faithful, spec_parse_subchunks, wire_slots, Chunk,
    LosslessChunks, OrderedSlots, Subchunks,
};
use crate::types::materialize::Materialized;
use crate::types::MdxModel;
use vstd::prelude::*;

verus! {

/// What the top-level decoder reports for a failure of the grammar: a scalar
/// that the buffer is too short for is an incomplete stream, and the payload
/// is the number of bytes that are missing; everything else is a parsing
/// error.
pub open spec fn spec_report(e: MdxParseError) -> Error {
    match e {
        MdxParseError::Eof { needed, found } => Error::Incomplete(
            if needed > found {
                (needed - found) as usize
            } else {
                0
            },
        ),
        _ => Error::Parsing(e),
    }
}

/// The grammar of a whole file: the root chunk, with no version handed in.
pub open spec fn spec_parse_mdx(input: Seq<u8>) -> Result<MdlxModel, Error> {
    match Mdlx::spec_parse(None, input) {
        Ok((_, m)) => Ok(m),
        Err(e) => Err(spec_report(e)),
    }
}

/// Parse a model from the input bytes.
pub fn parse_mdx(input: &[u8]) -> (r: Result<MdxModel, Error>)
    ensures
        match r {
            Ok(model) => spec_parse_mdx(input@) == Ok::<_, Error>(model.root.model()),
            Err(e) => spec_parse_mdx(input@) == Err::<MdlxModel, _>(e),
        },
{
    match Mdlx::parse(input) {
        Ok((_, root)) => Ok(MdxModel { root }),
        Err(MdxParseError::Eof { needed, found }) => Err(
            Error::Incomplete(
                if needed > found {
                    needed - found
                } else {
                    0
                },
            ),
        ),
        Err(e) => Err(Error::Parsing(e)),
    }
}

/// Round-trip identity: a file that is parsed to a model in which no chunk
/// and no optional block was met twice, and all of whose chunks the model
/// knows, is encoded from that model byte for byte.
pub proof fn lemma_round_trip_identity(bytes: Seq<u8>)
    requires
        spec_parse_mdx(bytes) is Ok,
        Mdlx::faithful(spec_parse_mdx(bytes)->Ok_0),
        all_known::<Mdlx>(bytes.skip(4)),
    ensures
        Mdlx::encode_error(spec_parse_mdx(bytes)->Ok_0) is None,
        Mdlx::wire(spec_parse_mdx(bytes)->Ok_0) == bytes,
{
    Mdlx::lemma_parse_wire(None, bytes);
}

/// Reconstruction: a file that is parsed to a model in which no chunk and no
/// optional block was met twice is encoded from that model to bytes that are
/// parsed to the same model again. The bytes are the file without the chunks
/// that the model does not know.
pub proof fn lemma_reconstruction(bytes: Seq<u8>)
    requires
        spec_parse_mdx(bytes) is Ok,
        Mdlx::faithful(spec_parse_mdx(bytes)->Ok_0),
    ensures
        Mdlx::encode_error(spec_parse_mdx(bytes)->Ok_0) is None,
        Mdlx::wire(spec_parse_mdx(bytes)->Ok_0) == Mdlx::spec_tag().0@ + known_part::<Mdlx>(
            bytes.skip(4),
        ),
        spec_parse_mdx(Mdlx::wire(spec_parse_mdx(bytes)->Ok_0)) == spec_parse_mdx(bytes),
{
    let m = spec_parse_mdx(bytes)->Ok_0;
    let m0 = MdlxModel::empty(Some(Seq::empty()));
    let rest1 = bytes.skip(4);
    let known = known_part::<Mdlx>(rest1);
    lemma_known_part_parse::<Mdlx>(m0, None, rest1);
    lemma_known_part_all_known::<Mdlx>(rest1);
    lemma_subchunks_parse_wire::<Mdlx>(m0, None, known);
    lemma_expect_tag_wire(Mdlx::spec_tag(), known);
    assert(m.order().skip(0) =~= m.order());
    let rest = spec_parse_subchunks::<Mdlx>(m0, None, known)->Ok_0.0;
    assert(wire_slots(m) + rest =~= wire_slots(m));
    assert((Mdlx::spec_tag().0@ + known).skip(4) =~= known);
}

/// Reconstruction with repeated chunks: a file that is parsed to a model is
/// encoded from that model to bytes that are parsed to the same model again,
/// if no optional block inside a chunk was met twice and the version chunk was
/// met at most once and before all other chunks. The other chunks may have
/// been met more than once, and chunks that the model does not know may have
/// been skipped.
pub proof fn lemma_reconstruction_of_repeated_chunks(bytes: Seq<u8>)
    requires
        spec_parse_mdx(bytes) is Ok,
        slots_faithful(spec_parse_mdx(bytes)->Ok_0, spec_parse_mdx(bytes)->Ok_0.order()),
        Mdlx::version_settled(spec_parse_mdx(bytes)->Ok_0),
    ensures
        Mdlx::encode_error(spec_parse_mdx(bytes)->Ok_0) is None,
        spec_parse_mdx(Mdlx::wire(spec_parse_mdx(bytes)->Ok_0)) == spec_parse_mdx(bytes),
{
    Mdlx::lemma_parse_wire_parse(bytes);
}

/// What a well-formed model is encoded to is parsed back to the same model.
pub proof fn lemma_encoded_is_parsed_back(m: MdlxModel)
    requires
        Mdlx::well_formed(m, None),
    ensures
        Mdlx::encode_error(m) is None,
        spec_parse_mdx(Mdlx::wire(m)) == Ok::<_, Error>(m),
{
    Mdlx::lemma_wire_parse(m, None);
}

/// A chunk whose tag the model does not know, and whose announced span fits
/// into the input, is skipped: the chunks are parsed as if it were not
/// there.
pub proof fn lemma_unknown_chunk_skipped(m: MdlxModel, version: Option<u32>, input: Seq<u8>)
    requires
        Header::spec_parse(None, input) is Ok,
        !Mdlx::knows(Header::spec_parse(None, input)->Ok_0.1.tag),
        input.len() >= Header::spec_parse(None, input)->Ok_0.1.size + 8,
    ensures
        spec_parse_subchunks::<Mdlx>(m, version, input) == spec_parse_subchunks::<Mdlx>(
            m,
            version,
            input.skip(Header::spec_parse(None, input)->Ok_0.1.size + 8),
        ),
{
    let header = Header::spec_parse(None, input)->Ok_0.1;
    assert(Mdlx::spec_chunk(m, version, header, input.take(header.size + 8)) == Ok::<
        _,
        MdxParseError,
    >((Seq::<u8>::empty(), m)));
}

} // verus!
