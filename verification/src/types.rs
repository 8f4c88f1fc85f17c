pub mod animation;
pub mod attachment;
pub mod bone;
pub mod camera;
pub mod chunk;
pub mod collision;
pub mod emitter;
pub mod event;
pub mod extent;
pub mod geoset;
pub mod layer;
pub mod light;
pub mod material;
pub mod materialize;
pub mod node;
pub mod sequence;
pub mod texture;
pub mod tracks;

use crate::encoder::encode_mdx;
use crate::encoder::error::Error as EncodeError;
use crate::parser::{parse_mdx, spec_parse_mdx};
use crate::parser::error::Error as ParseError;
use crate::types::chunk::mdlx::{Mdlx, MdlxModel};
use crate::types::materialize::Materialized;
use vstd::prelude::*;

verus! {

/// A model: the tree of the chunks of one file.
#[derive(Debug, Clone, PartialEq)]
pub struct MdxModel {
    pub root: Mdlx,
}

impl MdxModel {
    /// Decodes a model from the bytes of a file.
    pub fn from_slice(slice: &[u8]) -> (r: Result<MdxModel, ParseError>)
        ensures
            match r {
                Ok(model) => spec_parse_mdx(slice@) == Ok::<_, ParseError>(model.root.model()),
                Err(e) => spec_parse_mdx(slice@) == Err::<MdlxModel, _>(e),
            },
    {
        parse_mdx(slice)
    }

    /// Encodes the model into the bytes of a file.
    pub fn to_vec(&self) -> (r: Result<Vec<u8>, EncodeError>)
        ensures
            match Mdlx::encode_error(self.root.model()) {
                None => r is Ok && r->Ok_0@ == Mdlx::wire(self.root.model()),
                Some(e) => r is Err && r->Err_0 == e,
            },
    {
        encode_mdx(self)
    }
}

} // verus!
