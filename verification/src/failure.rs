//! What can go wrong in one run, by kind.

use vstd::prelude::*;

verus! {

/// The kinds of failure of one encryption run. Encrypting bytes cannot itself
/// fail, so there is no kind for it.
#[derive(Clone, Copy, Debug, PartialEq, Eq, Structural)]
pub enum Failure {
    /// The input could not be read or the output could not be written.
    Io,
    /// The input is not an image that the codec can decode, or the codec
    /// could not encode the output.
    Codec,
    /// The mode is none of the four known tokens.
    Config,
}

/// The process exit status that reports `failure`: 2 for a bad
/// configuration, 3 for bad input, 4 for an I/O failure. Success is 0.
pub open spec fn exit_status(failure: Failure) -> int {
    match failure {
        Failure::Config => 2,
        Failure::Codec => 3,
        Failure::Io => 4,
    }
}

impl Failure {
    /// The exit status for this kind of failure; never 0, and different for
    /// each kind.
    pub fn exit_code(&self) -> (code: u8)
        ensures
            code == exit_status(*self),
            code != 0,
    {
        match self {
            Failure::Config => 2,
            Failure::Codec => 3,
            Failure::Io => 4,
        }
    }

    /// The one line shown to the user for this kind of failure.
    pub fn message(&self) -> (text: &'static str)
        ensures
            text@ == match *self {
                Failure::Config => "unknown mode: expected one of ECB, CBC, CFB, CTR"@,
                Failure::Codec => "the image could not be decoded or encoded as PNG"@,
                Failure::Io => "the input could not be read or the output could not be written"@,
            },
    {
        match self {
            Failure::Config => "unknown mode: expected one of ECB, CBC, CFB, CTR",
            Failure::Codec => "the image could not be decoded or encoded as PNG",
            Failure::Io => "the input could not be read or the output could not be written",
        }
    }
}

} // verus!
