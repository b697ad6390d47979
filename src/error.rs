use vstd::prelude::*;

verus! {

/// Why an operation of the ceremony was refused. Every one of them is fatal
/// to the operation: nothing is partly accepted.
#[derive(Clone, Copy, Debug, PartialEq, Eq, Structural)]
pub enum SetupError {
    /// A transcript's length differs from the one its parameters fix, or a
    /// circuit does not fit the domain it is to be specialised to.
    SizeMismatch,
    /// The requested domain is larger than the accumulator provides.
    CircuitTooLarge,
    /// A contribution changed what it may not change.
    InvalidContribution,
}

} // verus!
