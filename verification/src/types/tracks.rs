use crate::encoder::error::Error as EncodeError;
use crate::encoder::primitives::{push_le_u32, spec_u32_to_le_bytes};
use crate::parser::error::MdxParseError;
use crate::parser::primitives::{le_u32, spec_le_u32, Parsed, Parser};
use crate::types::chunk::utils::Tag;
use crate::types::materialize::{
    all_faithful, all_well_formed, count, encode_error_all, encode_fixed_vec,
    lemma_append_assoc, lemma_count_parse_wire, lemma_count_wire_parse, models,
    spec_parse_count, wire_all, Lossless, Materialized, Reparsable,
};
use vstd::prelude::*;

verus! {

/// The way in which the values between two key frames are found, stored as a `u32` code.
#[derive(Debug, Clone, Copy, PartialEq, PartialOrd, Eq, Ord, Hash, Structural)]
pub enum InterpolationType {
    NoInterp,
    Linear,
    Hermite,
    Bezier,
}

/// A code that is not the code of any [`InterpolationType`].
#[derive(Debug, Clone, Copy, PartialEq, PartialOrd, Eq, Ord, Hash, Structural)]
pub struct UnknownInterpolationType(pub u32);

impl InterpolationType {
    /// The value that a code stands for.
    pub open spec fn spec_from_code(v: u32) -> Result<InterpolationType, UnknownInterpolationType> {
        if v == 0 {
            Ok(InterpolationType::NoInterp)
        }         else if v == 1 {
            Ok(InterpolationType::Linear)
        }         else if v == 2 {
            Ok(InterpolationType::Hermite)
        }         else if v == 3 {
            Ok(InterpolationType::Bezier)
        } else {
            Err(UnknownInterpolationType(v))
        }
    }

    /// The code that stands for the value.
    pub open spec fn spec_code(self) -> u32 {
        match self {
            InterpolationType::NoInterp => 0,
            InterpolationType::Linear => 1,
            InterpolationType::Hermite => 2,
            InterpolationType::Bezier => 3,
        }
    }
}

impl InterpolationType {
    /// The value that a code stands for, or the code itself if it stands for
    /// none.
    pub fn try_from(value: u32) -> (r: Result<InterpolationType, UnknownInterpolationType>)
        ensures
            r == InterpolationType::spec_from_code(value),
    {
        match value {
            0 => Ok(InterpolationType::NoInterp),
            1 => Ok(InterpolationType::Linear),
            2 => Ok(InterpolationType::Hermite),
            3 => Ok(InterpolationType::Bezier),
            _ => Err(UnknownInterpolationType(value)),
        }
    }

    /// The code that stands for the value.
    pub fn code(self) -> (r: u32)
        ensures
            r == self.spec_code(),
    {
        match self {
            InterpolationType::NoInterp => 0,
            InterpolationType::Linear => 1,
            InterpolationType::Hermite => 2,
            InterpolationType::Bezier => 3,
        }
    }
}

impl Materialized for InterpolationType {
    type Version = u32;

    type Model = InterpolationType;

    open spec fn model(&self) -> InterpolationType {
        *self
    }

    open spec fn spec_parse(version: Option<u32>, input: Seq<u8>) -> Parsed<InterpolationType> {
        match spec_le_u32(input) {
            Ok((rest, flag)) => match InterpolationType::spec_from_code(flag) {
                Ok(value) => Ok((rest, value)),
                Err(e) => Err(MdxParseError::UnknownInterpolationType(e)),
            },
            Err(e) => Err(e),
        }
    }

    open spec fn wire(m: InterpolationType) -> Seq<u8> {
        spec_u32_to_le_bytes(m.spec_code())
    }

    open spec fn encode_error(m: InterpolationType) -> Option<EncodeError> {
        None
    }

    fn parse_versioned<'a>(version: Option<u32>, input: &'a [u8]) -> (r: Parser<'a, InterpolationType>) {
        let (input, flag) = le_u32(input)?;
        match InterpolationType::try_from(flag) {
            Ok(value) => Ok((input, value)),
            Err(e) => Err(MdxParseError::UnknownInterpolationType(e)),
        }
    }

    fn encode(&self, output: &mut Vec<u8>) -> (r: Result<(), EncodeError>) {
        let flag: u32 = self.code();
        push_le_u32(flag, output);
        Ok(())
    }
}

impl Lossless for InterpolationType {
    open spec fn faithful(m: InterpolationType) -> bool {
        true
    }

    proof fn lemma_parse_wire(version: Option<u32>, input: Seq<u8>) {
        u32::lemma_parse_wire(None, input);
    }
}

impl Reparsable for InterpolationType {
    open spec fn well_formed(m: InterpolationType, version: Option<u32>) -> bool {
        true
    }

    proof fn lemma_wire_parse(m: InterpolationType, version: Option<u32>, tail: Seq<u8>) {
        u32::lemma_wire_parse(m.spec_code(), None, tail);
    }
}

/// Whether the key frames of a track with this interpolation carry tangents:
/// they do for `Hermite` and `Bezier`.
pub open spec fn has_tangents(version: Option<InterpolationType>) -> bool {
    version == Some(InterpolationType::Hermite) || version == Some(InterpolationType::Bezier)
}

/// One key frame of a track.
#[derive(Debug, Clone, PartialEq)]
pub enum Track<T: Clone> {
    /// Interpolation is [InterpolationType::NoInterp] or [InterpolationType::Linear].
    Linear { frame: i32, value: T },
    /// Interpolation is [InterpolationType::Hermite] or [InterpolationType::Bezier].
    Complex { frame: i32, value: T, in_tan: T, out_tan: T },
}

/// What a key frame stands for in specifications.
pub enum TrackModel<M> {
    Linear { frame: i32, value: M },
    Complex { frame: i32, value: M, in_tan: M, out_tan: M },
}

impl<T: Clone + Materialized> Materialized for Track<T> {
    type Version = InterpolationType;

    type Model = TrackModel<T::Model>;

    open spec fn model(&self) -> TrackModel<T::Model> {
        match *self {
            Track::Linear { frame, value } => TrackModel::Linear { frame, value: value.model() },
            Track::Complex { frame, value, in_tan, out_tan } => TrackModel::Complex {
                frame,
                value: value.model(),
                in_tan: in_tan.model(),
                out_tan: out_tan.model(),
            },
        }
    }

    open spec fn spec_parse(version: Option<InterpolationType>, input: Seq<u8>) -> Parsed<
        TrackModel<T::Model>,
    > {
        match i32::spec_parse(None, input) {
            Ok((rest, frame)) => match T::spec_parse(None, rest) {
                Ok((rest, value)) => if has_tangents(version) {
                    match T::spec_parse(None, rest) {
                        Ok((rest, in_tan)) => match T::spec_parse(None, rest) {
                            Ok((rest, out_tan)) => Ok(
                                (rest, TrackModel::Complex { frame, value, in_tan, out_tan }),
                            ),
                            Err(e) => Err(e),
                        },
                        Err(e) => Err(e),
                    }
                } else {
                    Ok((rest, TrackModel::Linear { frame, value }))
                },
                Err(e) => Err(e),
            },
            Err(e) => Err(e),
        }
    }

    open spec fn wire(m: TrackModel<T::Model>) -> Seq<u8> {
        match m {
            TrackModel::Linear { frame, value } => i32::wire(frame) + T::wire(value),
            TrackModel::Complex { frame, value, in_tan, out_tan } => i32::wire(frame) + (T::wire(
                value,
            ) + (T::wire(in_tan) + T::wire(out_tan))),
        }
    }

    open spec fn encode_error(m: TrackModel<T::Model>) -> Option<EncodeError> {
        match m {
            TrackModel::Linear { frame, value } => T::encode_error(value),
            TrackModel::Complex { frame, value, in_tan, out_tan } => match T::encode_error(value) {
                Some(e) => Some(e),
                None => match T::encode_error(in_tan) {
                    Some(e) => Some(e),
                    None => T::encode_error(out_tan),
                },
            },
        }
    }

    fn parse_versioned<'a>(version: Option<InterpolationType>, input: &'a [u8]) -> (r: Parser<
        'a,
        Track<T>,
    >) {
        let (input, frame) = i32::parse(input)?;
        let (input, value) = T::parse(input)?;
        match version {
            Some(InterpolationType::Hermite) | Some(InterpolationType::Bezier) => {
                let (input, in_tan) = T::parse(input)?;
                let (input, out_tan) = T::parse(input)?;
                Ok((input, Track::Complex { frame, value, in_tan, out_tan }))
            },
            _ => Ok((input, Track::Linear { frame, value })),
        }
    }

    fn encode(&self, output: &mut Vec<u8>) -> (r: Result<(), EncodeError>) {
        match self {
            Track::Linear { frame, value } => {
                frame.encode(output)?;
                value.encode(output)?;
                proof {
                    lemma_append_assoc(
                        old(output)@,
                        i32::wire(*frame),
                        T::wire(value.model()),
                    );
                }
            },
            Track::Complex { frame, value, in_tan, out_tan } => {
                frame.encode(output)?;
                value.encode(output)?;
                in_tan.encode(output)?;
                out_tan.encode(output)?;
                proof {
                    let w0 = i32::wire(*frame);
                    let w1 = T::wire(value.model());
                    let w2 = T::wire(in_tan.model());
                    let w3 = T::wire(out_tan.model());
                    lemma_append_assoc(old(output)@ + w0 + w1, w2, w3);
                    lemma_append_assoc(old(output)@ + w0, w1, w2 + w3);
                    lemma_append_assoc(old(output)@, w0, w1 + (w2 + w3));
                }
            },
        }
        Ok(())
    }
}

impl<T: Clone + Lossless> Lossless for Track<T> {
    open spec fn faithful(m: TrackModel<T::Model>) -> bool {
        match m {
            TrackModel::Linear { frame, value } => T::faithful(value),
            TrackModel::Complex { frame, value, in_tan, out_tan } => T::faithful(value)
                && T::faithful(in_tan) && T::faithful(out_tan),
        }
    }

    proof fn lemma_parse_wire(version: Option<InterpolationType>, input: Seq<u8>) {
        i32::lemma_parse_wire(None, input);
        match i32::spec_parse(None, input) {
            Ok((rest1, frame)) => {
                T::lemma_parse_wire(None, rest1);
                match T::spec_parse(None, rest1) {
                    Ok((rest2, value)) => {
                        if has_tangents(version) {
                            T::lemma_parse_wire(None, rest2);
                            match T::spec_parse(None, rest2) {
                                Ok((rest3, in_tan)) => {
                                    T::lemma_parse_wire(None, rest3);
                                    match T::spec_parse(None, rest3) {
                                        Ok((rest4, out_tan)) => {
                                            let w0 = i32::wire(frame);
                                            let w1 = T::wire(value);
                                            let w2 = T::wire(in_tan);
                                            let w3 = T::wire(out_tan);
                                            lemma_append_assoc(w2, w3, rest4);
                                            lemma_append_assoc(w1, w2 + w3, rest4);
                                            lemma_append_assoc(w0, w1 + (w2 + w3), rest4);
                                        },
                                        Err(_) => {},
                                    }
                                },
                                Err(_) => {},
                            }
                        } else {
                            lemma_append_assoc(i32::wire(frame), T::wire(value), rest2);
                        }
                    },
                    Err(_) => {},
                }
            },
            Err(_) => {},
        }
    }
}

impl<T: Clone + Reparsable> Reparsable for Track<T> {
    open spec fn well_formed(m: TrackModel<T::Model>, version: Option<InterpolationType>) -> bool {
        match m {
            TrackModel::Linear { frame, value } => !has_tangents(version) && T::well_formed(
                value,
                None,
            ),
            TrackModel::Complex { frame, value, in_tan, out_tan } => has_tangents(version)
                && T::well_formed(value, None) && T::well_formed(in_tan, None) && T::well_formed(
                out_tan,
                None,
            ),
        }
    }

    proof fn lemma_wire_parse(
        m: TrackModel<T::Model>,
        version: Option<InterpolationType>,
        tail: Seq<u8>,
    ) {
        match m {
            TrackModel::Linear { frame, value } => {
                lemma_append_assoc(i32::wire(frame), T::wire(value), tail);
                i32::lemma_wire_parse(frame, None, T::wire(value) + tail);
                T::lemma_wire_parse(value, None, tail);
            },
            TrackModel::Complex { frame, value, in_tan, out_tan } => {
                let w0 = i32::wire(frame);
                let w1 = T::wire(value);
                let w2 = T::wire(in_tan);
                let w3 = T::wire(out_tan);
                lemma_append_assoc(w0, w1 + (w2 + w3), tail);
                lemma_append_assoc(w1, w2 + w3, tail);
                lemma_append_assoc(w2, w3, tail);
                i32::lemma_wire_parse(frame, None, w1 + (w2 + (w3 + tail)));
                T::lemma_wire_parse(value, None, w2 + (w3 + tail));
                T::lemma_wire_parse(in_tan, None, w3 + tail);
                T::lemma_wire_parse(out_tan, None, tail);
            },
        }
    }
}

/// The track of one animated property: the tag of the property, how its key
/// frames are interpolated, and the key frames.
#[derive(Debug, Clone, PartialEq)]
pub struct TrackChunk<T: Clone> {
    pub tag: Tag,
    pub interpolation_type: InterpolationType,
    pub global_sequence_id: u32,
    pub tracks: Vec<Track<T>>,
}

/// What a track stands for in specifications.
pub struct TrackChunkModel<M> {
    pub tag: Tag,
    pub interpolation_type: InterpolationType,
    pub global_sequence_id: u32,
    pub tracks: Seq<TrackModel<M>>,
}

impl<T: Clone + Materialized> Materialized for TrackChunk<T> {
    type Version = u32;

    type Model = TrackChunkModel<T::Model>;

    open spec fn model(&self) -> TrackChunkModel<T::Model> {
        TrackChunkModel {
            tag: self.tag,
            interpolation_type: self.interpolation_type,
            global_sequence_id: self.global_sequence_id,
            tracks: models(self.tracks@),
        }
    }

    open spec fn spec_parse(version: Option<u32>, input: Seq<u8>) -> Parsed<
        TrackChunkModel<T::Model>,
    > {
        match Tag::spec_parse(None, input) {
            Ok((rest, tag)) => match spec_le_u32(rest) {
                Ok((rest, tracks_count)) => match InterpolationType::spec_parse(None, rest) {
                    Ok((rest, interpolation_type)) => match spec_le_u32(rest) {
                        Ok((rest, global_sequence_id)) => match spec_parse_count::<Track<T>>(
                            Some(interpolation_type),
                            tracks_count as nat,
                            Seq::empty(),
                            rest,
                        ) {
                            Ok((rest, tracks)) => Ok(
                                (
                                    rest,
                                    TrackChunkModel {
                                        tag,
                                        interpolation_type,
                                        global_sequence_id,
                                        tracks,
                                    },
                                ),
                            ),
                            Err(e) => Err(e),
                        },
                        Err(e) => Err(e),
                    },
                    Err(e) => Err(e),
                },
                Err(e) => Err(e),
            },
            Err(e) => Err(e),
        }
    }

    open spec fn wire(m: TrackChunkModel<T::Model>) -> Seq<u8> {
        m.tag.0@ + (spec_u32_to_le_bytes(m.tracks.len() as u32) + (InterpolationType::wire(
            m.interpolation_type,
        ) + (spec_u32_to_le_bytes(m.global_sequence_id) + wire_all::<Track<T>>(m.tracks))))
    }

    open spec fn encode_error(m: TrackChunkModel<T::Model>) -> Option<EncodeError> {
        if m.tracks.len() > u32::MAX {
            Some(EncodeError::SizeUintOverflow(m.tracks.len() as usize))
        } else {
            encode_error_all::<Track<T>>(m.tracks)
        }
    }

    fn parse_versioned<'a>(version: Option<u32>, input: &'a [u8]) -> (r: Parser<
        'a,
        TrackChunk<T>,
    >) {
        let (input, tag) = Tag::parse(input)?;
        let (input, tracks_count) = le_u32(input)?;
        let (input, interpolation_type) = InterpolationType::parse(input)?;
        let (input, global_sequence_id) = le_u32(input)?;
        let (input, tracks) = count::<Track<T>>(
            Some(interpolation_type),
            tracks_count as usize,
            input,
        )?;
        Ok((input, TrackChunk { tag, interpolation_type, global_sequence_id, tracks }))
    }

    fn encode(&self, output: &mut Vec<u8>) -> (r: Result<(), EncodeError>) {
        let n = self.tracks.len();
        if n > u32::MAX as usize {
            return Err(EncodeError::SizeUintOverflow(n));
        }
        self.tag.encode(output)?;
        push_le_u32(n as u32, output);
        self.interpolation_type.encode(output)?;
        push_le_u32(self.global_sequence_id, output);
        encode_fixed_vec(self.tracks.as_slice(), output)?;
        proof {
            let m = self.model();
            let w0 = m.tag.0@;
            let w1 = spec_u32_to_le_bytes(m.tracks.len() as u32);
            let w2 = InterpolationType::wire(m.interpolation_type);
            let w3 = spec_u32_to_le_bytes(m.global_sequence_id);
            let w4 = wire_all::<Track<T>>(m.tracks);
            lemma_append_assoc(old(output)@ + w0 + w1 + w2, w3, w4);
            lemma_append_assoc(old(output)@ + w0 + w1, w2, w3 + w4);
            lemma_append_assoc(old(output)@ + w0, w1, w2 + (w3 + w4));
            lemma_append_assoc(old(output)@, w0, w1 + (w2 + (w3 + w4)));
        }
        Ok(())
    }
}

impl<T: Clone + Lossless> Lossless for TrackChunk<T> {
    open spec fn faithful(m: TrackChunkModel<T::Model>) -> bool {
        all_faithful::<Track<T>>(m.tracks)
    }

    proof fn lemma_parse_wire(version: Option<u32>, input: Seq<u8>) {
        Tag::lemma_parse_wire(None, input);
        match Tag::spec_parse(None, input) {
            Ok((rest1, tag)) => {
                u32::lemma_parse_wire(None, rest1);
                match spec_le_u32(rest1) {
                    Ok((rest2, tracks_count)) => {
                        InterpolationType::lemma_parse_wire(None, rest2);
                        match InterpolationType::spec_parse(None, rest2) {
                            Ok((rest3, interpolation_type)) => {
                                u32::lemma_parse_wire(None, rest3);
                                match spec_le_u32(rest3) {
                                    Ok((rest4, global_sequence_id)) => {
                                        lemma_count_parse_wire::<Track<T>>(
                                            Some(interpolation_type),
                                            tracks_count as nat,
                                            Seq::empty(),
                                            rest4,
                                        );
                                        match spec_parse_count::<Track<T>>(
                                            Some(interpolation_type),
                                            tracks_count as nat,
                                            Seq::empty(),
                                            rest4,
                                        ) {
                                            Ok((rest5, tracks)) => {
                                                if all_faithful::<Track<T>>(tracks) {
                                                    let w0 = tag.0@;
                                                    let w1 = spec_u32_to_le_bytes(tracks_count);
                                                    let w2 = InterpolationType::wire(
                                                        interpolation_type,
                                                    );
                                                    let w3 = spec_u32_to_le_bytes(
                                                        global_sequence_id,
                                                    );
                                                    let w4 = wire_all::<Track<T>>(tracks);
                                                    assert(wire_all::<Track<T>>(
                                                        Seq::<TrackModel<T::Model>>::empty(),
                                                    ) + rest4 =~= rest4);
                                                    lemma_append_assoc(w3, w4, rest5);
                                                    lemma_append_assoc(w2, w3 + w4, rest5);
                                                    lemma_append_assoc(w1, w2 + (w3 + w4), rest5);
                                                    lemma_append_assoc(
                                                        w0,
                                                        w1 + (w2 + (w3 + w4)),
                                                        rest5,
                                                    );
                                                }
                                            },
                                            Err(_) => {},
                                        }
                                    },
                                    Err(_) => {},
                                }
                            },
                            Err(_) => {},
                        }
                    },
                    Err(_) => {},
                }
            },
            Err(_) => {},
        }
    }
}

impl<T: Clone + Reparsable> Reparsable for TrackChunk<T> {
    open spec fn well_formed(m: TrackChunkModel<T::Model>, version: Option<u32>) -> bool {
        m.tracks.len() <= u32::MAX && all_well_formed::<Track<T>>(
            m.tracks,
            Some(m.interpolation_type),
        )
    }

    proof fn lemma_wire_parse(m: TrackChunkModel<T::Model>, version: Option<u32>, tail: Seq<u8>) {
        let w0 = m.tag.0@;
        let w1 = spec_u32_to_le_bytes(m.tracks.len() as u32);
        let w2 = InterpolationType::wire(m.interpolation_type);
        let w3 = spec_u32_to_le_bytes(m.global_sequence_id);
        let w4 = wire_all::<Track<T>>(m.tracks);
        lemma_append_assoc(w0, w1 + (w2 + (w3 + w4)), tail);
        lemma_append_assoc(w1, w2 + (w3 + w4), tail);
        lemma_append_assoc(w2, w3 + w4, tail);
        lemma_append_assoc(w3, w4, tail);
        Tag::lemma_wire_parse(m.tag, None, w1 + (w2 + (w3 + (w4 + tail))));
        u32::lemma_wire_parse(m.tracks.len() as u32, None, w2 + (w3 + (w4 + tail)));
        InterpolationType::lemma_wire_parse(m.interpolation_type, None, w3 + (w4 + tail));
        u32::lemma_wire_parse(m.global_sequence_id, None, w4 + tail);
        lemma_count_wire_parse::<Track<T>>(
            Some(m.interpolation_type),
            Seq::empty(),
            m.tracks,
            tail,
        );
        assert(Seq::<TrackModel<T::Model>>::empty() + m.tracks =~= m.tracks);
    }
}

} // verus!
