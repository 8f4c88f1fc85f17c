pub mod atch;
pub mod bone;
pub mod bpos;
pub mod cams;
pub mod clid;
pub mod corn;
pub mod evts;
pub mod fafx;
pub mod geoa;
pub mod geos;
pub mod glbs;
pub mod help;
pub mod lite;
pub mod mdlx;
pub mod modl;
pub mod mtls;
pub mod pivt;
pub mod pre2;
pub mod prem;
pub mod ribb;
pub mod seqs;
pub mod snds;
pub mod texs;
pub mod txan;
pub mod utils;
pub mod vers;

use crate::encoder::error::Error as EncodeError;
use crate::parser::error::MdxParseError;
use crate::parser::primitives::{Parsed, Parser};
use crate::types::chunk::utils::{lemma_tag_bytes, spec_expect_header, spec_expect_tag, Header, Tag};
use crate::types::materialize::{
    all_faithful, encode_error_all, lemma_append_assoc, lemma_count_parse_wire, lemma_take_skip,
    all_well_formed, lemma_count_wire_parse, lemma_wire_all_len, models, parse_fixed_vec,
    spec_parse_count, wire_all, Lossless, LosslessBody, Materialized, Reparsable,
    ReparsableBody, SizedBody,
};
use vstd::prelude::*;

verus! {

/// A model file consists of a hierarchy of chunks. They start with known tags
/// of 4 ASCII characters and a size.
pub trait Chunk: Sized {
    /// The fixed tag of the type of chunk, in specifications.
    spec fn spec_tag() -> Tag;

    /// Fixed tag for the given type of chunk.
    fn tag() -> (t: Tag)
        ensures
            t == Self::spec_tag(),
    ;

    /// Parse a header and guard that its tag is the one of the chunk.
    fn expect_header<'a>(input: &'a [u8]) -> (r: Parser<'a, Header>)
        ensures
            match r {
                Ok((rest, header)) => spec_expect_header(Self::spec_tag(), input@) == Ok::<
                    _,
                    MdxParseError,
                >((rest@, header)) && header.tag == Self::spec_tag(),
                Err(e) => spec_expect_header(Self::spec_tag(), input@) == Err::<
                    (Seq<u8>, Header),
                    _,
                >(e),
            },
    {
        Header::expect(Self::tag(), input)
    }

    /// Parse a tag only and guard that it is the one of the chunk.
    fn expect_tag<'a>(input: &'a [u8]) -> (r: Parser<'a, Tag>)
        ensures
            match r {
                Ok((rest, tag)) => spec_expect_tag(Self::spec_tag(), input@) == Ok::<
                    _,
                    MdxParseError,
                >((rest@, tag)) && tag == Self::spec_tag(),
                Err(e) => spec_expect_tag(Self::spec_tag(), input@) == Err::<(Seq<u8>, Tag), _>(
                    e,
                ),
            },
    {
        Self::tag().expect(input)
    }

    /// Write down the header with the given size of the body.
    fn encode_header(size: usize, output: &mut Vec<u8>) -> (r: Result<(), EncodeError>)
        ensures
            match Header::encode_error(Header { tag: Self::spec_tag(), size }) {
                None => r is Ok && final(output)@ == old(output)@ + Header::wire(
                    Header { tag: Self::spec_tag(), size },
                ),
                Some(e) => r == Err::<(), _>(e),
            },
    {
        let header = Header { tag: Self::tag(), size };
        header.encode(output)
    }

    /// Write down only the tag of the chunk.
    fn encode_tag(output: &mut Vec<u8>) -> (r: Result<(), EncodeError>)
        ensures
            r is Ok,
            final(output)@ == old(output)@ + Self::spec_tag().0@,
    {
        Self::tag().encode(output)
    }
}

/// The bytes of a chunk: the header with the size of the body, then the body.
pub open spec fn wire_chunk(tag: Tag, body: Seq<u8>) -> Seq<u8> {
    Header::wire(Header { tag, size: body.len() as usize }) + body
}

/// The failure of the encoder on the frame of a chunk: a body whose size does
/// not fit into `u32`.
pub open spec fn encode_error_chunk(body: Seq<u8>) -> Option<EncodeError> {
    if body.len() > u32::MAX {
        Some(EncodeError::SizeUintOverflow(body.len() as usize))
    } else {
        None
    }
}

/// Writes the header of the chunk with the size of the encoded body, and then
/// the body.
pub fn encode_chunk<C: Chunk>(output: &mut Vec<u8>, body: Vec<u8>) -> (r: Result<(), EncodeError>)
    ensures
        match encode_error_chunk(body@) {
            None => r is Ok && final(output)@ == old(output)@ + wire_chunk(C::spec_tag(), body@),
            Some(e) => r == Err::<(), _>(e),
        },
{
    let mut buff = body;
    match C::encode_header(buff.len(), output) {
        Ok(()) => {},
        Err(e) => {
            return Err(e);
        },
    }
    output.append(&mut buff);
    proof {
        lemma_append_assoc(
            old(output)@,
            Header::wire(Header { tag: C::spec_tag(), size: body@.len() as usize }),
            body@,
        );
    }
    Ok(())
}

/// The grammar of a chunk of elements of a fixed width: the header announces
/// the size of the body, and the count of the elements is the size divided by
/// the width, rounded down.
pub open spec fn spec_parse_fixed_elements_chunk<T: Materialized>(
    width: nat,
    tag: Tag,
    input: Seq<u8>,
) -> Parsed<Seq<T::Model>> {
    match spec_expect_header(tag, input) {
        Ok((rest, header)) => spec_parse_count::<T>(
            None,
            (header.size as nat) / width,
            Seq::empty(),
            rest,
        ),
        Err(e) => Err(e),
    }
}

/// Parse the contents of a chunk that consists of elements of the fixed size
/// `S`.
pub fn parse_fixed_elements_chunk<'a, const S: usize, C: Chunk, T: Materialized>(
    input: &'a [u8],
) -> (r: Parser<'a, Vec<T>>)
    requires
        S > 0,
    ensures
        match r {
            Ok((rest, elements)) => spec_parse_fixed_elements_chunk::<T>(
                S as nat,
                C::spec_tag(),
                input@,
            ) == Ok::<_, MdxParseError>((rest@, models(elements@))),
            Err(e) => spec_parse_fixed_elements_chunk::<T>(S as nat, C::spec_tag(), input@)
                == Err::<(Seq<u8>, Seq<T::Model>), _>(e),
        },
{
    match C::expect_header(input) {
        Ok((input, header)) => {
            let n = header.size / S;
            parse_fixed_vec(n, input)
        },
        Err(e) => Err(e),
    }
}

/// The span is as long as its header says: eight bytes of header and the
/// announced size of the body.
pub open spec fn span_announced(span: Seq<u8>) -> bool {
    match Header::spec_parse(None, span) {
        Ok((rest, header)) => rest.len() == header.size,
        Err(_) => false,
    }
}

/// A header that was expected and found is encoded to the bytes it was read
/// from.
pub proof fn lemma_expect_header(tag: Tag, input: Seq<u8>)
    ensures
        match spec_expect_header(tag, input) {
            Ok((rest, header)) => {
                &&& header.tag == tag
                &&& header.size <= u32::MAX
                &&& Header::wire(header) + rest == input
                &&& Header::spec_parse(None, input) == Ok::<_, MdxParseError>((rest, header))
            },
            Err(_) => true,
        },
{
    Header::lemma_parse_wire(None, input);
}

/// What a chunk of fixed-width elements was parsed to, from a span that it
/// used up and that is as long as its header says, is encoded to that span.
pub proof fn lemma_fixed_elements_chunk_parse_wire<T: Lossless>(
    width: nat,
    tag: Tag,
    span: Seq<u8>,
)
    ensures
        match spec_parse_fixed_elements_chunk::<T>(width, tag, span) {
            Ok((rest, ms)) => all_faithful::<T>(ms) && rest.len() == 0 && span_announced(span) ==> {
                &&& encode_error_all::<T>(ms) is None
                &&& encode_error_chunk(wire_all::<T>(ms)) is None
                &&& wire_chunk(tag, wire_all::<T>(ms)) == span
            },
            Err(_) => true,
        },
{
    lemma_expect_header(tag, span);
    match spec_expect_header(tag, span) {
        Ok((rest1, header)) => {
            lemma_count_parse_wire::<T>(
                None,
                (header.size as nat) / width,
                Seq::empty(),
                rest1,
            );
            match spec_parse_count::<T>(None, (header.size as nat) / width, Seq::empty(), rest1) {
                Ok((rest, ms)) => {
                    if all_faithful::<T>(ms) && rest.len() == 0 && span_announced(span) {
                        assert(wire_all::<T>(Seq::<T::Model>::empty()) + rest1 =~= rest1);
                        assert(wire_all::<T>(ms) + rest =~= wire_all::<T>(ms));
                    }
                },
                Err(_) => {},
            }
        },
        Err(_) => {},
    }
}

/// The optional sub-records of a record, each under a tag of its own, and the
/// order in which the parser met them.
pub trait OrderedSlots: Sized {
    /// The tags of the sub-records in the order of the grammar.
    spec fn canonical() -> Seq<Tag>;

    /// Whether an order was recorded: it is after a parse, and is not in a
    /// value that was built by hand.
    spec fn recorded(self) -> bool;

    /// The recorded order; empty if none was recorded.
    spec fn order(self) -> Seq<Tag>;

    /// The bytes of the sub-record under the tag; none if it is absent or the
    /// tag is not one of the record.
    spec fn slot_wire(self, tag: Tag) -> Seq<u8>;

    /// The failure of the encoder on the sub-record under the tag.
    spec fn slot_error(self, tag: Tag) -> Option<EncodeError>;

    /// Whether the sub-record under the tag is faithful.
    spec fn slot_faithful(self, tag: Tag) -> bool;

    /// The value without its sub-records and without a recorded order.
    spec fn frame(self) -> Self;
}

/// The bytes of the sub-records under the tags, in the order of the tags.
pub open spec fn replay<M: OrderedSlots>(m: M, tags: Seq<Tag>) -> Seq<u8>
    decreases tags.len(),
{
    if tags.len() == 0 {
        Seq::empty()
    } else {
        m.slot_wire(tags[0]) + replay(m, tags.skip(1))
    }
}

/// The failure of the encoder on the first sub-record, in the order of the
/// tags, that has one.
pub open spec fn replay_error<M: OrderedSlots>(m: M, tags: Seq<Tag>) -> Option<EncodeError>
    decreases tags.len(),
{
    if tags.len() == 0 {
        None
    } else {
        match m.slot_error(tags[0]) {
            Some(e) => Some(e),
            None => replay_error(m, tags.skip(1)),
        }
    }
}

/// The order in which the sub-records are encoded: the recorded one, or the
/// one of the grammar if none was recorded.
pub open spec fn encode_order<M: OrderedSlots>(m: M) -> Seq<Tag> {
    if m.recorded() {
        m.order()
    } else {
        M::canonical()
    }
}

/// The bytes of the sub-records of a value, in the order in which they are
/// encoded.
pub open spec fn wire_slots<M: OrderedSlots>(m: M) -> Seq<u8> {
    replay(m, encode_order(m))
}

/// The failure of the encoder on the sub-records of a value.
pub open spec fn encode_error_slots<M: OrderedSlots>(m: M) -> Option<EncodeError> {
    replay_error(m, encode_order(m))
}

/// Every sub-record under one of the tags is faithful.
pub open spec fn slots_faithful<M: OrderedSlots>(m: M, tags: Seq<Tag>) -> bool {
    forall|i: int| 0 <= i < tags.len() ==> m.slot_faithful(#[trigger] tags[i])
}

/// The sub-records of the two values under the tag are the same to the
/// encoder.
pub open spec fn same_slot<M: OrderedSlots>(m: M, m2: M, tag: Tag) -> bool {
    &&& m2.slot_wire(tag) == m.slot_wire(tag)
    &&& m2.slot_error(tag) == m.slot_error(tag)
    &&& m2.slot_faithful(tag) == m.slot_faithful(tag)
}

/// `m2` is `m` after the parser met the tag: the tag is added to the recorded
/// order, and no sub-record under another tag has changed.
pub open spec fn slot_filled<M: OrderedSlots>(m: M, m2: M, tag: Tag) -> bool {
    &&& m2.recorded()
    &&& m2.order() == m.order().push(tag)
    &&& m2.frame() == m.frame()
    &&& forall|t: Tag| t != tag ==> #[trigger] same_slot(m, m2, t)
}

/// One more tag at the end adds the bytes of its sub-record at the end.
pub proof fn lemma_replay_push<M: OrderedSlots>(m: M, tags: Seq<Tag>, tag: Tag)
    ensures
        replay(m, tags.push(tag)) == replay(m, tags) + m.slot_wire(tag),
        replay_error(m, tags.push(tag)) == match replay_error(m, tags) {
            Some(e) => Some(e),
            None => m.slot_error(tag),
        },
    decreases tags.len(),
{
    if tags.len() == 0 {
        assert(tags.push(tag).skip(1) =~= tags);
        assert(tags.push(tag)[0] == tag);
        assert(replay(m, tags.push(tag)) =~= replay(m, tags) + m.slot_wire(tag));
    } else {
        assert(tags.push(tag).skip(1) =~= tags.skip(1).push(tag));
        lemma_replay_push(m, tags.skip(1), tag);
        lemma_append_assoc(m.slot_wire(tags[0]), replay(m, tags.skip(1)), m.slot_wire(tag));
    }
}

/// Two values whose sub-records under the tags are the same are encoded to the
/// same bytes.
pub proof fn lemma_replay_same<M: OrderedSlots>(m: M, m2: M, tags: Seq<Tag>)
    requires
        forall|i: int| 0 <= i < tags.len() ==> same_slot(m, m2, #[trigger] tags[i]),
    ensures
        replay(m2, tags) == replay(m, tags),
        replay_error(m2, tags) == replay_error(m, tags),
        slots_faithful(m2, tags) == slots_faithful(m, tags),
    decreases tags.len(),
{
    if tags.len() > 0 {
        assert(same_slot(m, m2, tags[0]));
        assert forall|i: int| 0 <= i < tags.skip(1).len() implies same_slot(
            m,
            m2,
            #[trigger] tags.skip(1)[i],
        ) by {
            assert(tags.skip(1)[i] == tags[i + 1]);
        }
        lemma_replay_same(m, m2, tags.skip(1));
    }
    assert(slots_faithful(m2, tags) == slots_faithful(m, tags)) by {
        if slots_faithful(m, tags) {
            assert forall|i: int| 0 <= i < tags.len() implies m2.slot_faithful(
                #[trigger] tags[i],
            ) by {
                assert(same_slot(m, m2, tags[i]));
            }
        }
        if slots_faithful(m2, tags) {
            assert forall|i: int| 0 <= i < tags.len() implies m.slot_faithful(
                #[trigger] tags[i],
            ) by {
                assert(same_slot(m, m2, tags[i]));
            }
        }
    }
}

/// A record that can encode the sub-record under a tag.
pub trait Replay: Sized {
    /// What a value of the type stands for in specifications.
    type Model: OrderedSlots;

    /// The model of a value.
    spec fn slots_model(&self) -> Self::Model;

    /// Encodes the sub-record under the tag; nothing if it is absent or the
    /// tag is not one of the record.
    fn encode_slot(&self, tag: Tag, output: &mut Vec<u8>) -> (r: Result<(), EncodeError>)
        ensures
            match self.slots_model().slot_error(tag) {
                None => r is Ok && final(output)@ == old(output)@ + self.slots_model().slot_wire(
                    tag,
                ),
                Some(e) => r == Err::<(), _>(e),
            },
    ;
}

/// Encodes the sub-records under the tags, in the order of the tags.
pub fn encode_replay<B: Replay>(value: &B, tags: &[Tag], output: &mut Vec<u8>) -> (r: Result<
    (),
    EncodeError,
>)
    ensures
        match replay_error(value.slots_model(), tags@) {
            None => r is Ok && final(output)@ == old(output)@ + replay(
                value.slots_model(),
                tags@,
            ),
            Some(e) => r == Err::<(), _>(e),
        },
{
    let ghost m = value.slots_model();
    let mut i: usize = 0;
    assert(tags@.take(0) =~= Seq::<Tag>::empty());
    assert(output@ =~= old(output)@ + replay(m, tags@.take(0)));
    while i < tags.len()
        invariant
            i <= tags.len(),
            m == value.slots_model(),
            replay_error(m, tags@.take(i as int)) is None,
            output@ == old(output)@ + replay(m, tags@.take(i as int)),
        decreases tags.len() - i,
    {
        proof {
            assert(tags@.take(i + 1) =~= tags@.take(i as int).push(tags@[i as int]));
            lemma_replay_push(m, tags@.take(i as int), tags@[i as int]);
            lemma_append_assoc(
                old(output)@,
                replay(m, tags@.take(i as int)),
                m.slot_wire(tags@[i as int]),
            );
        }
        match value.encode_slot(tags[i], output) {
            Ok(()) => {},
            Err(e) => {
                proof {
                    lemma_replay_error_prefix(m, tags@, i + 1);
                }
                return Err(e);
            },
        }
        i += 1;
    }
    assert(tags@.take(i as int) =~= tags@);
    Ok(())
}

/// A failure among the first `k` tags is the failure of all of them.
pub proof fn lemma_replay_error_prefix<M: OrderedSlots>(m: M, tags: Seq<Tag>, k: int)
    requires
        0 <= k <= tags.len(),
        replay_error(m, tags.take(k)) is Some,
    ensures
        replay_error(m, tags) == replay_error(m, tags.take(k)),
    decreases tags.len(),
{
    if k == 0 {
        assert(tags.take(0) =~= Seq::<Tag>::empty());
    } else {
        assert(tags.take(k)[0] == tags[0]);
        assert(tags.take(k).skip(1) =~= tags.skip(1).take(k - 1));
        if m.slot_error(tags[0]) is None {
            lemma_replay_error_prefix(m, tags.skip(1), k - 1);
        }
    }
}

/// Encodes the sub-records of a value in the recorded order, or in the order
/// of the grammar if none was recorded.
pub fn encode_slots<B: Replay>(
    value: &B,
    ordered: &Option<Vec<Tag>>,
    canonical: &[Tag],
    output: &mut Vec<u8>,
) -> (r: Result<(), EncodeError>)
    requires
        canonical@ == B::Model::canonical(),
        value.slots_model().recorded() == (ordered is Some),
        ordered is Some ==> ordered->0@ == value.slots_model().order(),
    ensures
        match encode_error_slots(value.slots_model()) {
            None => r is Ok && final(output)@ == old(output)@ + wire_slots(value.slots_model()),
            Some(e) => r == Err::<(), _>(e),
        },
{
    match ordered {
        Some(tags) => encode_replay(value, tags.as_slice(), output),
        None => encode_replay(value, canonical, output),
    }
}

/// What the grammar of the optional blocks of a record does with a tag.
pub enum BlockStep<M> {
    /// The tag is not one of the record and ends the blocks: nothing is read.
    Stop,
    /// The block under the tag was read: the rest of the input and the record
    /// with the block.
    Parsed(Seq<u8>, M),
    /// The block is broken, or the tag is not one of the record and nothing
    /// can follow the blocks.
    Failed(MdxParseError),
}

/// A record with a trailing region of optional blocks, each of which starts
/// with its tag.
pub trait TaggedBlocks: Replay {
    /// What the grammar does when `tag` stands at the front of `input`.
    spec fn spec_block(m: Self::Model, tag: Tag, input: Seq<u8>) -> BlockStep<Self::Model>;

    /// Parses the block that starts with `tag` at the front of `input` into
    /// the record, and returns `false`; or returns `true` and the input
    /// unread if the tag ends the blocks.
    fn parse_block<'a>(&mut self, tag: Tag, input: &'a [u8]) -> (r: Parser<'a, bool>)
        ensures
            match Self::spec_block(old(self).slots_model(), tag, input@) {
                BlockStep::Stop => r is Ok && r->Ok_0.1 && r->Ok_0.0@ == input@ && final(self).slots_model() == old(self).slots_model(),
                BlockStep::Parsed(rest, m) => r is Ok && !r->Ok_0.1 && r->Ok_0.0@ == rest
                    && final(self).slots_model() == m,
                BlockStep::Failed(e) => r is Err && r->Err_0 == e,
            },
    ;
}

/// The grammar of the optional blocks: as long as input is left, the tag at
/// its front is peeked and the block under it is read into the record. A tag
/// that ends the blocks leaves the input from that tag on unread.
pub open spec fn spec_parse_tagged<B: TaggedBlocks>(m: B::Model, input: Seq<u8>) -> Parsed<
    B::Model,
>
    decreases input.len(),
{
    if input.len() == 0 {
        Ok((input, m))
    } else {
        match Tag::spec_parse(None, input) {
            Ok((_, tag)) => match B::spec_block(m, tag, input) {
                BlockStep::Stop => Ok((input, m)),
                BlockStep::Parsed(rest, m2) => if rest.len() < input.len() {
                    spec_parse_tagged::<B>(m2, rest)
                } else {
                    Ok((rest, m2))
                },
                BlockStep::Failed(e) => Err(e),
            },
            Err(e) => Err(e),
        }
    }
}

/// Parse only the tag from the input and pass it to the record, until the
/// input is empty or the record says that the blocks have ended.
pub fn parse_tagged<'a, B: TaggedBlocks>(blocks: &mut B, input: &'a [u8]) -> (r: Parser<'a, ()>)
    ensures
        match spec_parse_tagged::<B>(old(blocks).slots_model(), input@) {
            Ok((rest, m)) => r is Ok && r->Ok_0.0@ == rest && final(blocks).slots_model() == m,
            Err(e) => r is Err && r->Err_0 == e,
        },
{
    let mut cycle_input = input;
    while cycle_input.len() > 0
        invariant
            spec_parse_tagged::<B>(old(blocks).slots_model(), input@) == spec_parse_tagged::<B>(
                blocks.slots_model(),
                cycle_input@,
            ),
        decreases cycle_input@.len(),
    {
        let tag = match Tag::parse(cycle_input) {
            Ok((_, tag)) => tag,
            Err(e) => {
                return Err(e);
            },
        };
        match blocks.parse_block(tag, cycle_input) {
            Ok((rest, need_stop)) => {
                if need_stop || rest.len() >= cycle_input.len() {
                    return Ok((rest, ()));
                }
                cycle_input = rest;
            },
            Err(e) => {
                return Err(e);
            },
        }
    }
    Ok((cycle_input, ()))
}

/// The codec of the blocks of a record loses nothing.
pub trait LosslessBlocks: TaggedBlocks {
    /// A block that was read is recorded under its tag, and its bytes are the
    /// ones that were read.
    proof fn lemma_block_step(m: Self::Model, tag: Tag, input: Seq<u8>)
        ensures
            match Self::spec_block(m, tag, input) {
                BlockStep::Parsed(rest, m2) => {
                    &&& slot_filled(m, m2, tag)
                    &&& m2.slot_faithful(tag) ==> m2.slot_error(tag) is None && m2.slot_wire(tag)
                        + rest == input
                },
                _ => true,
            },
    ;
}

/// What the blocks were parsed to: the tags that were met are recorded behind
/// the ones that were there, no block under another tag has changed, and, if
/// no tag was met twice, the blocks are encoded to the bytes that were read.
pub open spec fn scanned<M: OrderedSlots>(m0: M, m: M, input: Seq<u8>, rest: Seq<u8>) -> bool {
    let old_len = m0.order().len() as int;
    let met = m.order().skip(old_len);
    &&& m.frame() == m0.frame()
    &&& m0.recorded() ==> m.recorded()
    &&& old_len <= m.order().len()
    &&& m.order().take(old_len) == m0.order()
    &&& forall|t: Tag| !met.contains(t) ==> #[trigger] same_slot(m0, m, t)
    &&& met.no_duplicates() && slots_faithful(m, met) ==> replay_error(m, met) is None && replay(
        m,
        met,
    ) + rest == input
}

/// A value is scanned from itself when nothing was read.
pub proof fn lemma_scanned_nothing<M: OrderedSlots>(m: M, input: Seq<u8>)
    ensures
        scanned(m, m, input, input),
{
    let old_len = m.order().len() as int;
    assert(m.order().skip(old_len) =~= Seq::<Tag>::empty());
    assert(m.order().take(old_len) =~= m.order());
    assert(replay(m, Seq::<Tag>::empty()) + input =~= input);
}

/// A step that fills the slot of `tag` from the front of the input, followed by
/// a scan of the rest, is a scan of the input.
pub proof fn lemma_scanned_step<M: OrderedSlots>(
    m0: M,
    m1: M,
    m: M,
    tag: Tag,
    input: Seq<u8>,
    rest1: Seq<u8>,
    rest: Seq<u8>,
)
    requires
        slot_filled(m0, m1, tag),
        m1.slot_faithful(tag) ==> m1.slot_error(tag) is None && m1.slot_wire(tag) + rest1 == input,
        scanned(m1, m, rest1, rest),
    ensures
        scanned(m0, m, input, rest),
{
    let len0 = m0.order().len() as int;
    let len1 = m1.order().len() as int;
    let met = m.order().skip(len0);
    let met1 = m.order().skip(len1);
    assert(len1 == len0 + 1);
    assert(m.order().take(len1)[len0] == tag);
    assert(m.order()[len0] == tag);
    assert(m.order().take(len0) =~= m.order().take(len1).take(len0));
    assert(m0.order().push(tag).take(len0) =~= m0.order());
    assert(met[0] == tag);
    assert(met.skip(1) =~= met1);
    assert forall|t: Tag| !met.contains(t) implies #[trigger] same_slot(m0, m, t) by {
        if t == tag {
            assert(met[0] == t);
        }
        if met1.contains(t) {
            let i = choose|i: int| 0 <= i < met1.len() && met1[i] == t;
            assert(met[i + 1] == t);
        }
        assert(same_slot(m0, m1, t));
        assert(same_slot(m1, m, t));
    }
    if met.no_duplicates() && slots_faithful(m, met) {
        assert(!met1.contains(tag)) by {
            if met1.contains(tag) {
                let i = choose|i: int| 0 <= i < met1.len() && met1[i] == tag;
                assert(met[i + 1] == tag);
            }
        }
        assert(same_slot(m1, m, tag));
        assert(m.slot_faithful(met[0]));
        assert(met1.no_duplicates()) by {
            assert forall|i: int, j: int| 0 <= i < met1.len() && 0 <= j < met1.len() && i != j implies met1[i]
                != met1[j] by {
                assert(met[i + 1] == met1[i]);
                assert(met[j + 1] == met1[j]);
            }
        }
        assert(slots_faithful(m, met1)) by {
            assert forall|i: int| 0 <= i < met1.len() implies m.slot_faithful(
                #[trigger] met1[i],
            ) by {
                assert(met[i + 1] == met1[i]);
            }
        }
        lemma_append_assoc(m.slot_wire(tag), replay(m, met1), rest);
    }
}

/// What the blocks of a record were parsed to is a scan of the input.
pub proof fn lemma_tagged_parse_wire<B: LosslessBlocks>(m0: B::Model, input: Seq<u8>)
    ensures
        match spec_parse_tagged::<B>(m0, input) {
            Ok((rest, m)) => scanned(m0, m, input, rest),
            Err(_) => true,
        },
    decreases input.len(),
{
    if input.len() == 0 {
        lemma_scanned_nothing(m0, input);
    } else {
        match Tag::spec_parse(None, input) {
            Ok((_, tag)) => {
                B::lemma_block_step(m0, tag, input);
                match B::spec_block(m0, tag, input) {
                    BlockStep::Stop => {
                        lemma_scanned_nothing(m0, input);
                    },
                    BlockStep::Parsed(rest1, m1) => {
                        if rest1.len() < input.len() {
                            lemma_tagged_parse_wire::<B>(m1, rest1);
                            match spec_parse_tagged::<B>(m1, rest1) {
                                Ok((rest, m)) => {
                                    lemma_scanned_step(m0, m1, m, tag, input, rest1, rest);
                                },
                                Err(_) => {},
                            }
                        } else {
                            lemma_scanned_nothing(m1, rest1);
                            lemma_scanned_step(m0, m1, m1, tag, input, rest1, rest1);
                        }
                    },
                    BlockStep::Failed(_) => {},
                }
            },
            Err(_) => {},
        }
    }
}

/// The recorded order of a record, in specifications.
pub open spec fn opt_seq(ordered: Option<Vec<Tag>>) -> Option<Seq<Tag>> {
    match ordered {
        Some(tags) => Some(tags@),
        None => None,
    }
}

/// The tags of a recorded order; none if no order is recorded.
pub open spec fn order_of(ordered: Option<Seq<Tag>>) -> Seq<Tag> {
    match ordered {
        Some(tags) => tags,
        None => Seq::empty(),
    }
}

/// Adds a tag at the end of the recorded order.
pub fn record_tag(ordered: &mut Option<Vec<Tag>>, tag: Tag)
    ensures
        opt_seq(*final(ordered)) == Some(order_of(opt_seq(*old(ordered))).push(tag)),
{
    match ordered {
        Some(tags) => {
            tags.push(tag);
        },
        None => {
            let mut tags: Vec<Tag> = Vec::new();
            tags.push(tag);
            *ordered = Some(tags);
        },
    }
}

/// The grammar of a chunk: the header with the tag of the chunk, and then the
/// body, which is all that follows. The size that the header announces is not
/// looked at: the chunk is handed the span that it announces.
pub open spec fn spec_parse_chunk<C: Chunk + SizedBody>(version: Option<u32>, input: Seq<u8>) -> Parsed<
    C::Model,
> {
    match spec_expect_header(C::spec_tag(), input) {
        Ok((rest, _)) => C::spec_parse_body(version, rest),
        Err(e) => Err(e),
    }
}

/// The failure of the encoder on a chunk: that of the body, or else a body
/// whose size does not fit into `u32`.
pub open spec fn encode_error_sized_chunk<C: Chunk + SizedBody>(m: C::Model) -> Option<
    EncodeError,
> {
    match C::body_encode_error(m) {
        Some(e) => Some(e),
        None => encode_error_chunk(C::body_wire(m)),
    }
}

/// Parses the header of the chunk and then its body.
pub fn parse_chunk<'a, C: Chunk + SizedBody>(version: Option<u32>, input: &'a [u8]) -> (r: Parser<
    'a,
    C,
>)
    ensures
        match r {
            Ok((rest, value)) => spec_parse_chunk::<C>(version, input@) == Ok::<_, MdxParseError>(
                (rest@, value.body_model()),
            ),
            Err(e) => spec_parse_chunk::<C>(version, input@) == Err::<(Seq<u8>, C::Model), _>(e),
        },
{
    let (input, _) = C::expect_header(input)?;
    C::parse_body(version, input)
}

/// Types of chunks whose parser loses nothing of a span that it uses up.
pub trait LosslessChunk: Materialized {
    /// The values in which no optional block was met twice while parsing.
    spec fn chunk_faithful(m: Self::Model) -> bool;

    /// What a chunk was parsed to, from a span that it used up and that is as
    /// long as its header says, is encoded to that span.
    proof fn lemma_chunk_parse_wire(version: Option<Self::Version>, span: Seq<u8>)
        ensures
            match Self::spec_parse(version, span) {
                Ok((rest, m)) => Self::chunk_faithful(m) && rest.len() == 0 && span_announced(span)
                    ==> Self::encode_error(m) is None && Self::wire(m) == span,
                Err(_) => true,
            },
    ;
}

/// What a chunk with a body was parsed to, from a span that it used up and
/// that is as long as its header says, is encoded to that span.
pub proof fn lemma_sized_chunk_parse_wire<C: Chunk + LosslessBody>(
    version: Option<u32>,
    span: Seq<u8>,
)
    ensures
        match spec_parse_chunk::<C>(version, span) {
            Ok((rest, m)) => C::body_faithful(m) && rest.len() == 0 && span_announced(span) ==> {
                &&& encode_error_sized_chunk::<C>(m) is None
                &&& wire_chunk(C::spec_tag(), C::body_wire(m)) == span
            },
            Err(_) => true,
        },
{
    lemma_expect_header(C::spec_tag(), span);
    match spec_expect_header(C::spec_tag(), span) {
        Ok((rest1, header)) => {
            C::lemma_body_parse_wire(version, rest1);
            match C::spec_parse_body(version, rest1) {
                Ok((rest, m)) => {
                    if C::body_faithful(m) && rest.len() == 0 && span_announced(span) {
                        assert(C::body_wire(m) + rest =~= C::body_wire(m));
                    }
                },
                Err(_) => {},
            }
        },
        Err(_) => {},
    }
}

/// A record that is made of chunks, each of which starts with a header.
pub trait Subchunks: Replay {
    /// What the grammar does with a chunk: `span` is the header and the body
    /// that it announces.
    spec fn spec_chunk(m: Self::Model, version: Option<u32>, header: Header, span: Seq<u8>) -> Parsed<
        Self::Model,
    >;

    /// Parses the chunk in `span` into the record, and returns what it did not
    /// read of the span.
    fn parse_chunk<'a>(&mut self, version: Option<u32>, header: Header, span: &'a [u8]) -> (r:
        Parser<'a, ()>)
        ensures
            match Self::spec_chunk(old(self).slots_model(), version, header, span@) {
                Ok((rest, m)) => r is Ok && r->Ok_0.0@ == rest && final(self).slots_model() == m,
                Err(e) => r is Err && r->Err_0 == e,
            },
    ;
}

/// The grammar of a sequence of chunks: as long as input is left, a header is
/// peeked, the span that it announces has to fit into the input, and the
/// record has to read the chunk from exactly that span.
pub open spec fn spec_parse_subchunks<S: Subchunks>(
    m: S::Model,
    version: Option<u32>,
    input: Seq<u8>,
) -> Parsed<S::Model>
    decreases input.len(),
{
    if input.len() == 0 {
        Ok((input, m))
    } else {
        match Header::spec_parse(None, input) {
            Ok((_, header)) => if input.len() < header.size + 8 {
                Err(
                    MdxParseError::ChunkNotEnoughInput {
                        size: header.size,
                        input: input.len() as usize,
                    },
                )
            } else {
                match S::spec_chunk(m, version, header, input.take(header.size + 8)) {
                    Ok((leftover, m2)) => if leftover.len() > 0 {
                        Err(MdxParseError::ChunkLeftover { input: leftover.len() as usize })
                    } else {
                        spec_parse_subchunks::<S>(m2, version, input.skip(header.size + 8))
                    },
                    Err(e) => Err(e),
                }
            },
            Err(e) => Err(e),
        }
    }
}

/// Parse the headers of chunks and pass each with its span to the record,
/// until the input is empty.
pub fn parse_subchunks<'a, S: Subchunks>(chunks: &mut S, version: Option<u32>, input: &'a [u8]) -> (r:
    Parser<'a, ()>)
    ensures
        match spec_parse_subchunks::<S>(old(chunks).slots_model(), version, input@) {
            Ok((rest, m)) => r is Ok && r->Ok_0.0@ == rest && final(chunks).slots_model() == m,
            Err(e) => r is Err && r->Err_0 == e,
        },
{
    let mut cycle_input = input;
    while cycle_input.len() > 0
        invariant
            spec_parse_subchunks::<S>(old(chunks).slots_model(), version, input@)
                == spec_parse_subchunks::<S>(chunks.slots_model(), version, cycle_input@),
        decreases cycle_input@.len(),
    {
        let (body, header) = Header::parse(cycle_input)?;
        if body.len() < header.size {
            return Err(
                MdxParseError::ChunkNotEnoughInput { size: header.size, input: cycle_input.len() },
            );
        }
        let inclusive_size = header.size + Header::size();
        let span = vstd::slice::slice_subrange(cycle_input, 0, inclusive_size);
        assert(span@ =~= cycle_input@.take(inclusive_size as int));
        let (leftover, _) = chunks.parse_chunk(version, header, span)?;
        if leftover.len() > 0 {
            return Err(MdxParseError::ChunkLeftover { input: leftover.len() });
        }
        let rest = vstd::slice::slice_subrange(cycle_input, inclusive_size, cycle_input.len());
        assert(rest@ =~= cycle_input@.skip(inclusive_size as int));
        cycle_input = rest;
    }
    Ok((cycle_input, ()))
}

/// The codec of the chunks of a record loses nothing of the chunks it knows.
pub trait LosslessChunks: Subchunks {
    /// Whether the tag is one of a chunk of the record.
    spec fn knows(tag: Tag) -> bool;

    /// A chunk with a known tag that was read is recorded under its tag, and
    /// its bytes are the span. A chunk with another tag is skipped: it leaves
    /// the record as it is and nothing of the span.
    proof fn lemma_chunk_step(m: Self::Model, version: Option<u32>, header: Header, span: Seq<u8>)
        requires
            span_announced(span),
            Header::spec_parse(None, span) is Ok,
            Header::spec_parse(None, span)->Ok_0.1 == header,
        ensures
            match Self::spec_chunk(m, version, header, span) {
                Ok((leftover, m2)) => leftover.len() == 0 ==> if Self::knows(header.tag) {
                    &&& slot_filled(m, m2, header.tag)
                    &&& m2.slot_faithful(header.tag) ==> m2.slot_error(header.tag) is None
                        && m2.slot_wire(header.tag) == span
                } else {
                    m2 == m
                },
                Err(_) => true,
            },
            !Self::knows(header.tag) ==> Self::spec_chunk(m, version, header, span) == Ok::<
                _,
                MdxParseError,
            >((Seq::<u8>::empty(), m)),
    ;
}

/// Every chunk of the input has a tag that the record knows.
pub open spec fn all_known<S: LosslessChunks>(input: Seq<u8>) -> bool
    decreases input.len(),
{
    if input.len() == 0 {
        true
    } else {
        match Header::spec_parse(None, input) {
            Ok((_, header)) => input.len() >= header.size + 8 ==> S::knows(header.tag)
                && all_known::<S>(input.skip(header.size + 8)),
            Err(_) => true,
        }
    }
}

/// The parsed header of a span that holds a header and the announced body is
/// the header of the input that the span was taken from.
pub proof fn lemma_span_header(input: Seq<u8>, header: Header)
    requires
        Header::spec_parse(None, input) is Ok,
        Header::spec_parse(None, input)->Ok_0.1 == header,
        input.len() >= header.size + 8,
    ensures
        Header::spec_parse(None, input.take(header.size + 8)) is Ok,
        Header::spec_parse(None, input.take(header.size + 8))->Ok_0.1 == header,
        span_announced(input.take(header.size + 8)),
{
    let span = input.take(header.size + 8);
    assert(span.take(4) =~= input.take(4));
    assert(span.skip(4).take(4) =~= input.skip(4).take(4));
    assert(span.skip(4).skip(4).len() == header.size);
}

/// What the chunks of a record were parsed to uses up the input, and is a scan
/// of the input if the record knows the tag of every chunk.
pub proof fn lemma_subchunks_parse_wire<S: LosslessChunks>(
    m0: S::Model,
    version: Option<u32>,
    input: Seq<u8>,
)
    ensures
        match spec_parse_subchunks::<S>(m0, version, input) {
            Ok((rest, m)) => rest.len() == 0 && (all_known::<S>(input) ==> scanned(
                m0,
                m,
                input,
                rest,
            )),
            Err(_) => true,
        },
    decreases input.len(),
{
    if input.len() == 0 {
        lemma_scanned_nothing(m0, input);
    } else {
        match Header::spec_parse(None, input) {
            Ok((_, header)) => {
                if input.len() >= header.size + 8 {
                    let n = header.size + 8;
                    let span = input.take(n);
                    let rest1 = input.skip(n);
                    lemma_span_header(input, header);
                    S::lemma_chunk_step(m0, version, header, span);
                    match S::spec_chunk(m0, version, header, span) {
                        Ok((leftover, m1)) => {
                            if leftover.len() == 0 {
                                lemma_subchunks_parse_wire::<S>(m1, version, rest1);
                                match spec_parse_subchunks::<S>(m1, version, rest1) {
                                    Ok((rest, m)) => {
                                        if all_known::<S>(input) {
                                            lemma_take_skip(input, n);
                                            lemma_scanned_step(
                                                m0,
                                                m1,
                                                m,
                                                header.tag,
                                                input,
                                                rest1,
                                                rest,
                                            );
                                        }
                                    },
                                    Err(_) => {},
                                }
                            }
                        },
                        Err(_) => {},
                    }
                }
            },
            Err(_) => {},
        }
    }
}

/// The input without the chunks whose tag the record does not know. What
/// follows a chunk that does not fit into the input is kept as it is.
pub open spec fn known_part<S: LosslessChunks>(input: Seq<u8>) -> Seq<u8>
    decreases input.len(),
{
    if input.len() == 0 {
        input
    } else {
        match Header::spec_parse(None, input) {
            Ok((_, header)) => if input.len() < header.size + 8 {
                input
            } else if S::knows(header.tag) {
                input.take(header.size + 8) + known_part::<S>(input.skip(header.size + 8))
            } else {
                known_part::<S>(input.skip(header.size + 8))
            },
            Err(_) => input,
        }
    }
}

/// The header at the front of an input is the header at the front of every
/// input that starts with the same eight bytes.
pub proof fn lemma_header_prefix(a: Seq<u8>, b: Seq<u8>)
    requires
        a.len() >= 8,
        b.len() >= 8,
        a.take(8) == b.take(8),
    ensures
        Header::spec_parse(None, a) is Ok,
        Header::spec_parse(None, b) is Ok,
        Header::spec_parse(None, a)->Ok_0.1 == Header::spec_parse(None, b)->Ok_0.1,
{
    assert(a.take(4) =~= a.take(8).take(4));
    assert(b.take(4) =~= b.take(8).take(4));
    assert(a.skip(4).take(4) =~= a.take(8).skip(4));
    assert(b.skip(4).take(4) =~= b.take(8).skip(4));
}

/// The chunks that the record does not know do not change what the input is
/// parsed to.
pub proof fn lemma_known_part_parse<S: LosslessChunks>(
    m: S::Model,
    version: Option<u32>,
    input: Seq<u8>,
)
    ensures
        spec_parse_subchunks::<S>(m, version, known_part::<S>(input)) == spec_parse_subchunks::<S>(
            m,
            version,
            input,
        ),
    decreases input.len(),
{
    if input.len() > 0 {
        match Header::spec_parse(None, input) {
            Ok((_, header)) => {
                if input.len() >= header.size + 8 {
                    let n = header.size + 8;
                    let span = input.take(n);
                    let rest = input.skip(n);
                    lemma_span_header(input, header);
                    S::lemma_chunk_step(m, version, header, span);
                    if S::knows(header.tag) {
                        let joined = span + known_part::<S>(rest);
                        assert(joined.take(8) =~= input.take(8));
                        lemma_header_prefix(joined, input);
                        assert(joined.take(n) =~= span);
                        assert(joined.skip(n) =~= known_part::<S>(rest));
                        match S::spec_chunk(m, version, header, span) {
                            Ok((leftover, m2)) => {
                                if leftover.len() == 0 {
                                    lemma_known_part_parse::<S>(m2, version, rest);
                                }
                            },
                            Err(_) => {},
                        }
                    } else {
                        lemma_known_part_parse::<S>(m, version, rest);
                    }
                }
            },
            Err(_) => {},
        }
    }
}

/// The record knows every chunk of the known part of an input.
pub proof fn lemma_known_part_all_known<S: LosslessChunks>(input: Seq<u8>)
    ensures
        all_known::<S>(known_part::<S>(input)),
    decreases input.len(),
{
    if input.len() > 0 {
        match Header::spec_parse(None, input) {
            Ok((_, header)) => {
                if input.len() >= header.size + 8 {
                    let n = header.size + 8;
                    let span = input.take(n);
                    let rest = input.skip(n);
                    lemma_known_part_all_known::<S>(rest);
                    if S::knows(header.tag) {
                        let joined = span + known_part::<S>(rest);
                        assert(joined.take(8) =~= input.take(8));
                        lemma_header_prefix(joined, input);
                        assert(joined.skip(n) =~= known_part::<S>(rest));
                    }
                }
            },
            Err(_) => {},
        }
    }
}

/// Types of blocks whose bytes start with the tag of the block.
pub trait TaggedBlock: Reparsable + Chunk {
    /// The bytes of a well-formed block start with its tag.
    proof fn lemma_wire_tag(m: Self::Model)
        requires
            Self::well_formed(m, None),
        ensures
            Self::wire(m).len() >= 4,
            Self::wire(m).take(4) == Self::spec_tag().0@,
    ;
}

/// The tag at the front of bytes that start with the bytes of a tag is that
/// tag.
pub proof fn lemma_peek_tag(tag: Tag, bytes: Seq<u8>, tail: Seq<u8>)
    requires
        bytes.len() >= 4,
        bytes.take(4) == tag.0@,
    ensures
        Tag::spec_parse(None, bytes + tail) is Ok,
        Tag::spec_parse(None, bytes + tail)->Ok_0.1 == tag,
{
    assert((bytes + tail).take(4) =~= bytes.take(4));
    lemma_tag_bytes(tag, tag.0@);
}

/// The blocks of a record can be read back from their bytes.
pub trait ReparsableBlocks: TaggedBlocks {
    /// The block of `m` under the tag is one of the record, is present and is
    /// well formed.
    spec fn slot_well_formed(m: Self::Model, tag: Tag) -> bool;

    /// `acc` with the block of `m` under the tag, and with the tag recorded.
    spec fn refill(acc: Self::Model, m: Self::Model, tag: Tag) -> Self::Model;

    /// The bytes of a well-formed block start with its tag and are parsed back
    /// to the block, whatever follows them.
    proof fn lemma_block_refill(acc: Self::Model, m: Self::Model, tag: Tag, tail: Seq<u8>)
        requires
            Self::slot_well_formed(m, tag),
        ensures
            m.slot_wire(tag).len() >= 4,
            m.slot_wire(tag).take(4) == tag.0@,
            m.slot_error(tag) is None,
            Self::spec_block(acc, tag, m.slot_wire(tag) + tail) == BlockStep::Parsed(
                tail,
                Self::refill(acc, m, tag),
            ),
    ;
}

/// `acc` with the blocks of `m` under the tags, recorded in the order of the
/// tags.
pub open spec fn refill_all<B: ReparsableBlocks>(acc: B::Model, m: B::Model, tags: Seq<Tag>) -> B::Model
    decreases tags.len(),
{
    if tags.len() == 0 {
        acc
    } else {
        refill_all::<B>(B::refill(acc, m, tags[0]), m, tags.skip(1))
    }
}

/// Nothing is left, or what is left starts with a tag that ends the blocks of
/// the record.
pub open spec fn ends_blocks<B: TaggedBlocks>(tail: Seq<u8>) -> bool {
    tail.len() == 0 || (Tag::spec_parse(None, tail) is Ok && forall|acc: B::Model|
        #[trigger] B::spec_block(acc, Tag::spec_parse(None, tail)->Ok_0.1, tail) is Stop)
}

/// The bytes of well-formed blocks are parsed back to the blocks, in their
/// order, up to what ends them.
pub proof fn lemma_tagged_wire_parse<B: ReparsableBlocks>(
    acc: B::Model,
    m: B::Model,
    tags: Seq<Tag>,
    tail: Seq<u8>,
)
    requires
        forall|i: int| 0 <= i < tags.len() ==> B::slot_well_formed(m, #[trigger] tags[i]),
        ends_blocks::<B>(tail),
    ensures
        replay_error(m, tags) is None,
        spec_parse_tagged::<B>(acc, replay(m, tags) + tail) == Ok::<_, MdxParseError>(
            (tail, refill_all::<B>(acc, m, tags)),
        ),
    decreases tags.len(),
{
    if tags.len() == 0 {
        assert(replay(m, tags) + tail =~= tail);
        if tail.len() > 0 {
            let tag = Tag::spec_parse(None, tail)->Ok_0.1;
            assert(B::spec_block(acc, tag, tail) is Stop);
        }
    } else {
        let tag = tags[0];
        let others = tags.skip(1);
        let bytes = m.slot_wire(tag);
        assert(B::slot_well_formed(m, tags[0]));
        assert forall|i: int| 0 <= i < others.len() implies B::slot_well_formed(
            m,
            #[trigger] others[i],
        ) by {
            assert(others[i] == tags[i + 1]);
        }
        let rest = replay(m, others) + tail;
        B::lemma_block_refill(acc, m, tag, rest);
        lemma_peek_tag(tag, bytes, rest);
        lemma_append_assoc(bytes, replay(m, others), tail);
        lemma_tagged_wire_parse::<B>(B::refill(acc, m, tag), m, others, tail);
    }
}

/// Header framing: the chunk of `n` well-formed elements that are `width`
/// bytes each has a header whose size is `n * width`, and its bytes are
/// parsed back to exactly the `n` elements, whatever follows them.
pub proof fn lemma_header_framing<T: Reparsable>(
    width: nat,
    tag: Tag,
    ms: Seq<T::Model>,
    tail: Seq<u8>,
)
    requires
        width > 0,
        ms.len() * width <= u32::MAX,
        all_well_formed::<T>(ms, None),
        forall|i: int| 0 <= i < ms.len() ==> (#[trigger] T::wire(ms[i])).len() == width,
    ensures
        encode_error_all::<T>(ms) is None,
        encode_error_chunk(wire_all::<T>(ms)) is None,
        Header::spec_parse(None, wire_chunk(tag, wire_all::<T>(ms)) + tail) == Ok::<
            _,
            MdxParseError,
        >((wire_all::<T>(ms) + tail, Header { tag, size: (ms.len() * width) as usize })),
        spec_parse_fixed_elements_chunk::<T>(width, tag, wire_chunk(tag, wire_all::<T>(ms)) + tail)
            == Ok::<_, MdxParseError>((tail, ms)),
{
    let body = wire_all::<T>(ms);
    let header = Header { tag, size: (ms.len() * width) as usize };
    lemma_wire_all_len::<T>(ms, width);
    lemma_append_assoc(Header::wire(header), body, tail);
    Header::lemma_wire_parse(header, None, body + tail);
    lemma_count_wire_parse::<T>(None, Seq::empty(), ms, tail);
    assert(Seq::<T::Model>::empty() + ms =~= ms);
    assert((ms.len() * width) / width == ms.len()) by (nonlinear_arith)
        requires
            width > 0,
    ;
}

/// A tag is among the tags if it is the first of them or among the others.
pub proof fn lemma_contains_front(tags: Seq<Tag>, tag: Tag)
    requires
        tags.len() > 0,
    ensures
        tags.contains(tag) <==> tags[0] == tag || tags.skip(1).contains(tag),
{
    if tags.contains(tag) {
        let i = choose|i: int| 0 <= i < tags.len() && tags[i] == tag;
        if i > 0 {
            assert(tags.skip(1)[i - 1] == tag);
        }
    }
    if tags.skip(1).contains(tag) {
        let i = choose|i: int| 0 <= i < tags.skip(1).len() && tags.skip(1)[i] == tag;
        assert(tags[i + 1] == tag);
    }
}

/// The bytes start with a header that has the tag and announces exactly the
/// bytes behind it.
pub open spec fn framed_as(tag: Tag, bytes: Seq<u8>) -> bool {
    match Header::spec_parse(None, bytes) {
        Ok((rest, header)) => header.tag == tag && rest.len() == header.size,
        Err(_) => false,
    }
}

/// Types of chunks whose bytes are parsed back to the chunk.
pub trait ReparsableChunk: Materialized + Chunk {
    /// The values that the parser can return at `version`.
    spec fn chunk_well_formed(m: Self::Model, version: Option<Self::Version>) -> bool;

    /// The bytes of a well-formed chunk are a header with its tag that
    /// announces its body, and are parsed back to the chunk with nothing left.
    proof fn lemma_chunk_wire_parse(m: Self::Model, version: Option<Self::Version>)
        requires
            Self::chunk_well_formed(m, version),
        ensures
            Self::encode_error(m) is None,
            framed_as(Self::spec_tag(), Self::wire(m)),
            Self::spec_parse(version, Self::wire(m)) == Ok::<_, MdxParseError>(
                (Seq::<u8>::empty(), m),
            ),
    ;
}

/// The chunk is parsed back from its own bytes at the version: the bytes are a
/// span that its header announces, and the chunk is read from them with
/// nothing left.
pub open spec fn chunk_reparses<C: ReparsableChunk>(c: C::Model, version: Option<C::Version>) -> bool {
    &&& C::encode_error(c) is None
    &&& framed_as(C::spec_tag(), C::wire(c))
    &&& C::spec_parse(version, C::wire(c)) == Ok::<_, MdxParseError>((Seq::<u8>::empty(), c))
}

/// The bytes of a chunk with a well-formed body are parsed back to the chunk.
pub proof fn lemma_sized_chunk_wire_parse<C: Chunk + ReparsableBody>(
    m: C::Model,
    version: Option<u32>,
)
    requires
        C::body_well_formed(m, version),
        C::body_wire(m).len() <= u32::MAX,
    ensures
        encode_error_sized_chunk::<C>(m) is None,
        framed_as(C::spec_tag(), wire_chunk(C::spec_tag(), C::body_wire(m))),
        spec_parse_chunk::<C>(version, wire_chunk(C::spec_tag(), C::body_wire(m))) == Ok::<
            _,
            MdxParseError,
        >((Seq::<u8>::empty(), m)),
{
    let body = C::body_wire(m);
    let header = Header { tag: C::spec_tag(), size: body.len() as usize };
    C::lemma_body_wire_parse(m, version);
    Header::lemma_wire_parse(header, None, body);
}

/// The bytes of a chunk of well-formed elements of one width are parsed back
/// to the elements.
pub proof fn lemma_fixed_elements_chunk_wire_parse<T: Reparsable>(
    width: nat,
    tag: Tag,
    ms: Seq<T::Model>,
)
    requires
        width > 0,
        ms.len() * width <= u32::MAX,
        all_well_formed::<T>(ms, None),
        forall|i: int| 0 <= i < ms.len() ==> (#[trigger] T::wire(ms[i])).len() == width,
    ensures
        encode_error_all::<T>(ms) is None,
        encode_error_chunk(wire_all::<T>(ms)) is None,
        framed_as(tag, wire_chunk(tag, wire_all::<T>(ms))),
        spec_parse_fixed_elements_chunk::<T>(width, tag, wire_chunk(tag, wire_all::<T>(ms)))
            == Ok::<_, MdxParseError>((Seq::<u8>::empty(), ms)),
{
    let bytes = wire_chunk(tag, wire_all::<T>(ms));
    lemma_header_framing::<T>(width, tag, ms, Seq::empty());
    lemma_wire_all_len::<T>(ms, width);
    assert(bytes + Seq::<u8>::empty() =~= bytes);
    assert(wire_all::<T>(ms) + Seq::<u8>::empty() =~= wire_all::<T>(ms));
}

/// A chunk that may be absent is faithful if it is absent or faithful.
pub open spec fn opt_chunk_faithful<C: LosslessChunk>(m: Option<C::Model>) -> bool {
    match m {
        Some(v) => C::chunk_faithful(v),
        None => true,
    }
}

} // verus!
