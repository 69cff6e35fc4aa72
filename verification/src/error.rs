use vstd::prelude::*;

verus! {

/// The ways in which loading or executing can fail.
#[derive(Clone, Copy, Debug, PartialEq, Eq, Structural)]
pub enum MarsError {
    /// The cell asks for something the engine does not implement: the `SPL`
    /// instruction, a pre-decrement or post-increment addressing mode, a store
    /// into an immediate operand, or a whole-cell operation on one.
    UnsupportedOperation,
    /// `DIV` or `MOD` with a zero divisor.
    ArithmeticFailure,
    /// A program longer than the core it is loaded into.
    LoadOverflow,
}

} // verus!
