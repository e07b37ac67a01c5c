//! The ways in which decoding a recorded execution or building a proof fails.

use vstd::prelude::*;

verus! {

/// Why a recorded execution cannot be turned into trace rows or a proof.
#[derive(Clone, Copy, Debug, PartialEq, Eq, Structural)]
pub enum TraceError {
    /// A truncated stream, an absent memory cell that is needed, an address out
    /// of range, or a value not below the field modulus.
    MalformedInput,
    /// The program declares a modulus other than the field's.
    ModulusMismatch,
    /// A flag combination outside the decoding table.
    MalformedInstruction,
    /// A column count or domain size that disagrees with the constraint system.
    DimensionMismatch,
}

} // verus!
