//! Host side of the boundary between a native process and a guest runtime:
//! guest containers with counted storage, variant-aware reference counting,
//! fixed-layout tagged-union encoding, and the classification of native
//! failures into the guest's closed error tag sets.
use vstd::prelude::*;

pub mod guest;
pub mod http;
pub mod command;
pub mod codec;

verus! {

} // verus!
