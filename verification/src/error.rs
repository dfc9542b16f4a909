use vstd::prelude::*;

verus! {

/// Failure kinds reported by the pool operations.
///
/// Every checked arithmetic step that can fail (overflow, underflow, division
/// by zero) surfaces uniformly as `Overflow`; structural mismatches between a
/// request and the pool it names surface as `UnmatchedPool`; a violated
/// slippage floor surfaces as `ExceedLimit`.
#[derive(Clone, Copy, Debug, PartialEq, Eq, Structural)]
pub enum AppError {
    InvalidInstruction,
    IncorrectProgramId,
    Overflow,
    InvalidOwner,
    InvalidProof,
    ZeroValue,
    AlreadyInitialized,
    UnmatchedPool,
    SameMint,
    ExceedLimit,
    FrozenPool,
}

} // verus!
