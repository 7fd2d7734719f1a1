//! Mappings between encodings.
use vstd::prelude::*;

pub mod jordan_wigner;

pub use jordan_wigner::JordanWigner;

verus! {

} // verus!
