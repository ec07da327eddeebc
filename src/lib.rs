use vstd::prelude::*;

pub mod args;
pub mod decode;
pub mod encode;
pub mod text;
pub mod vocab;

verus! {

/// Number of character positions fed to the model for each line.
pub const CONTEXT_LENGTH: usize = 32;

} // verus!
