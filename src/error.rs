use vstd::prelude::*;

verus! {

/// Every way an operation on a launch can be refused.
#[derive(Clone, Copy, Debug, PartialEq, Eq, Structural)]
pub enum GrokError {
    FeeTooHigh,
    ZeroAmount,
    ZeroUnits,
    NotEnoughSupply,
    Underflow,
    Overflow,
    SlippageExceeded,
    LaunchGraduated,
    BumpNotFound,
    InvalidOwner,
    InvalidParam,
    NotYetGraduate,
    NonIntegralAmount,
    ProgramPaused,
}

} // verus!
