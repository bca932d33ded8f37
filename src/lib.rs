use vstd::prelude::*;

pub mod json;
pub mod message;
pub mod wire;
pub mod framing;
pub mod buffer_cache;
pub mod jpeg;
pub mod errors;
pub mod router;
pub mod types;
pub mod marshall;
pub mod registry;
pub mod client;

verus! {

} // verus!
