//! Two timing harnesses and the verified logic around them: the text that
//! each harness builds and the report lines that it prints.
use vstd::prelude::*;

pub mod allocation;
mod barrier;
pub mod decimal;
pub mod reference;
pub mod report;

verus! {

} // verus!
