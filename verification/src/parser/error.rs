use crate::types::chunk::utils::Tag;
use crate::types::tracks::UnknownInterpolationType;
use vstd::prelude::*;

verus! {

/// Errors that the top-level decoder reports.
#[derive(Debug, Clone, Copy, PartialEq, Eq)]
pub enum Error {
    /// The bytes break a structural rule of the format.
    Parsing(MdxParseError),
    /// The buffer ends before a scalar is complete; the payload is the number
    /// of bytes that are missing.
    Incomplete(usize),
}

/// Structural failures of a decoder. Each is fatal to the current parse.
#[derive(Debug, Clone, Copy, PartialEq, Eq)]
#[allow(inconsistent_fields)]
pub enum MdxParseError {
    /// Fewer bytes remain than a fixed-width scalar needs.
    Eof { needed: usize, found: usize },
    /// A specific tag was expected, but the bytes hold another one.
    UnexpectedChunkTag { expected: Tag, found: Tag },
    /// A tag that the optional-block grammar of the record does not know.
    UnknownTag(Tag),
    /// A collision shape code outside the closed set.
    UnknownCollisionShape { tag: u32 },
    /// Fewer bytes remain than a fixed-width text field needs.
    TooShortLiteral { expected: usize, found: usize },
    /// The bytes of a text field are not UTF-8.
    Utf8Conv,
    /// A layer filter mode code outside the closed set.
    UnknownLayerFilterMode(crate::types::layer::UnknownFilterMode),
    /// An emitter filter mode code outside the closed set.
    UnknownEmitterFilterMode(crate::types::emitter::quad::UnknownFilterMode),
    /// A head-or-tail code outside the closed set.
    UnknownHeadTail(crate::types::emitter::quad::UnknownHeadTail),
    /// An interpolation type code outside the closed set.
    UnknownInterpolationType(UnknownInterpolationType),
    /// A face type group code outside the closed set.
    UnknownFaceTypeGroup(crate::types::geoset::UnknownFaceTypeGroup),
    /// A light type code outside the closed set.
    UnknownLightType(crate::types::light::UnknownLightType),
    /// A chunk header announces more bytes than remain.
    ChunkNotEnoughInput { size: usize, input: usize },
    /// A chunk decoder left bytes of its span unread.
    ChunkLeftover { input: usize },
    /// An inclusive size smaller than the size field itself.
    InclusiveSizeTooSmall { size: u32 },
    /// An inclusive size that reaches beyond the remaining input.
    InclusiveSizeNotEhoughInput { size: u32, input: usize },
    /// The decoder of an inclusive-sized record left bytes of its span unread.
    InclusiveLeftover { input: usize },
}

} // verus!
