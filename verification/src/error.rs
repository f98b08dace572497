use vstd::prelude::*;

verus! {

/// Failures the core can report to a caller.
///
/// Expected outcomes ("already given", "would block") are booleans or
/// absence, never errors; this type covers only the genuinely
/// exceptional paths.
#[derive(Clone, Copy, Debug, PartialEq, Eq, Structural)]
pub enum Error {
    /// The native layer could not create a new execution unit.
    OutOfResources,
    /// A bounded blocking call elapsed before the event arrived.
    Timeout,
    /// A guarded value was observed after a failure mid-critical-section.
    Poisoned,
}

impl Error {
    /// Short diagnostic text for the error.
    pub fn describe(&self) -> (r: &'static str)
        ensures
            r@ == match *self {
                Error::OutOfResources => "out of resources"@,
                Error::Timeout => "timeout"@,
                Error::Poisoned => "poisoned"@,
            },
    {
        match *self {
            Error::OutOfResources => "out of resources",
            Error::Timeout => "timeout",
            Error::Poisoned => "poisoned",
        }
    }
}

} // verus!
