use vstd::prelude::*;

pub mod context;
pub mod entrypoint;
pub mod envelope;
pub mod error;
pub mod msg;
pub mod response;
pub mod store;
pub mod varint;
pub mod wire;

verus! {

} // verus!
