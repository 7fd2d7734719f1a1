//! Encoding of Hamiltonian terms.
use vstd::prelude::*;

pub mod fermions;
pub mod qubits;

verus! {

/// Codes of the terms of a Hamiltonian sum.
///
/// Each valid code has a 128-bit key, and distinct valid codes have distinct
/// keys.
pub trait Code: Copy + Sized {
    /// The code can be a term of a sum.
    spec fn code_valid(self) -> bool;

    /// The key of the code.
    spec fn code_key(self) -> u128;

    fn key(&self) -> (k: u128)
        requires
            self.code_valid(),
        ensures
            k == self.code_key(),
    ;

    /// Distinct valid codes have distinct keys.
    proof fn lemma_key_injective(a: Self, b: Self)
        requires
            a.code_valid(),
            b.code_valid(),
            a.code_key() == b.code_key(),
        ensures
            a == b,
    ;
}

impl Code for u64 {
    open spec fn code_valid(self) -> bool {
        true
    }

    open spec fn code_key(self) -> u128 {
        self as u128
    }

    fn key(&self) -> (k: u128) {
        *self as u128
    }

    proof fn lemma_key_injective(a: Self, b: Self) {
    }
}

} // verus!
