use vstd::prelude::*;

pub mod gateway;
pub mod relay;
pub mod reply;

verus! {

} // verus!
