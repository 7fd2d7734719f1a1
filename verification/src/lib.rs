//! Fermion-to-qubit mappings.
//!
//! Representation of Pauli Hamiltonians with up to 64 qubits, and of
//! second-quantized fermionic Hamiltonians, together with the
//! Jordan-Wigner mapping between them.
use vstd::prelude::*;
use vstd::string::*;

pub mod code;
pub mod generate;
pub mod map;
pub mod math;
pub mod serialize;
pub mod terms;
pub mod text;

verus! {

/// Errors reported by the library.
#[derive(Debug, PartialEq)]
pub enum Error {
    /// Invalid qubit index in a Pauli string
    QubitIndex { msg: String },
}

impl Error {
    /// The message of the error, with its kind.
    pub fn to_string(&self) -> (r: String)
        ensures
            r@ == match self {
                Error::QubitIndex { msg } => "PauliIndex: "@ + msg@,
            },
    {
        match self {
            Error::QubitIndex { msg } => {
                let mut r = String::from_str("PauliIndex: ");
                crate::text::push_str(&mut r, msg.as_str());
                r
            },
        }
    }
}

} // verus!
