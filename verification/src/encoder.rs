pub mod error;
pub mod primitives;

use crate::encoder::error::Error;
use crate::types::MdxModel;
use crate::types::chunk::mdlx::Mdlx;
use crate::types::materialize::Materialized;
use vstd::prelude::*;

verus! {

/// Encode a model into bytes.
pub fn encode_mdx(model: &MdxModel) -> (r: Result<Vec<u8>, Error>)
    ensures
        match Mdlx::encode_error(model.root.model()) {
            None => r is Ok && r->Ok_0@ == Mdlx::wire(model.root.model()),
            Some(e) => r is Err && r->Err_0 == e,
        },
{
    let mut output: Vec<u8> = Vec::new();
    model.root.encode(&mut output)?;
    assert(output@ =~= Mdlx::wire(model.root.model()));
    Ok(output)
}

} // verus!
