use vstd::prelude::*;

verus! {

/// Every way in which the detector reports failure.
#[derive(Clone, Copy, Debug, PartialEq, Eq, Structural)]
pub enum DetectorError {
    /// A configuration option is out of range; only construction reports it.
    InvalidConfiguration,
    /// The crossing search found its sign conditions broken.
    InvariantViolation,
    /// The crossing search could not narrow its bracket to the tolerance.
    SearchDidNotConverge,
}

} // verus!
