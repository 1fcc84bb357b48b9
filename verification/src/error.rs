//! What can go wrong when a strip is configured or a frame is sent.

use vstd::prelude::*;

verus! {

/// Errors of the LED driver.
#[derive(Clone, Copy, Debug, PartialEq, Eq, Structural)]
pub enum Error {
    /// The pulse generator's clock cannot express the protocol's pulse lengths.
    UnsupportedClock,
    /// The encoded frame for this many pixels would not fit in memory.
    FrameTooLarge,
    /// The encoded buffer was sized for a different number of pixels.
    SizeMismatch,
    /// The startup burst could not be sent, so no frame can follow.
    StartupFailed,
    /// The peripheral reported a failure while sending the transfer with this index.
    Transmission { transfer: usize },
}

impl Error {
    /// Configuration errors are fatal at startup; a failed transmission only loses
    /// the current frame.
    pub open spec fn spec_is_recoverable(self) -> bool {
        self is Transmission
    }

    /// Whether the refresh loop can go on after this error.
    #[verifier::when_used_as_spec(spec_is_recoverable)]
    pub fn is_recoverable(self) -> (r: bool)
        ensures
            r == self.spec_is_recoverable(),
    {
        match self {
            Error::Transmission { .. } => true,
            _ => false,
        }
    }
}

} // verus!
