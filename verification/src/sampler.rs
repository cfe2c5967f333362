use vstd::prelude::*;

verus! {

/// The sampler of paths; it holds no state yet.
#[derive(Debug, Clone, Copy)]
pub struct Sampler {}

} // verus!
