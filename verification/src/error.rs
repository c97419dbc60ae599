//! The failures that the audio core reports.

use vstd::prelude::*;

verus! {

/// Why an operation of the audio core did not take effect.
#[derive(Clone, Copy, Debug, PartialEq, Eq, Structural)]
pub enum AudioError {
    /// No device of the requested name is present.
    DeviceNotFound,
    /// A device stream could not be constructed.
    StreamConstructionFailed,
    /// The media file could not be opened, probed or primed.
    DecodeOpenFailed,
    /// The decoded buffer holds samples in an encoding that is not handled.
    UnsupportedSampleEncoding,
    /// The engine has shut down and takes no more commands.
    ChannelClosed,
}

} // verus!
