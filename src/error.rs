//! Errors of a print job.
use vstd::prelude::*;
use crate::frame::FrameError;

verus! {

/// Why a print job could not be prepared.
#[derive(Debug, Clone, Copy, PartialEq, Eq, Structural)]
pub enum PrintError {
    /// Neither a tape width nor a printer reporting its tape was given.
    MissingConfiguration,
    /// No text was given for the QR code.
    MissingQrText,
    /// The given tape width is not one of the supported widths.
    UnsupportedWidth,
    /// The printer did not report a loaded tape when one was needed.
    UnexpectedDeviceState,
    /// The text cannot be encoded as a QR code.
    QrEncoding,
    /// The rendered QR code does not fit on the tape.
    QrTooLarge,
    /// A control frame would be too large for its length byte.
    FrameTooLarge,
    /// A control frame's checksum byte is wrong.
    ChecksumMismatch,
    /// A frame's fixed bytes are missing or misplaced.
    MalformedFrame,
}

impl PrintError {
    /// The print error for a fault in a frame.
    pub fn from_frame_error(e: FrameError) -> (r: PrintError)
        ensures
            e == FrameError::FrameTooLarge ==> r == PrintError::FrameTooLarge,
            e == FrameError::ChecksumMismatch ==> r == PrintError::ChecksumMismatch,
            e == FrameError::MalformedFrame ==> r == PrintError::MalformedFrame,
    {
        match e {
            FrameError::FrameTooLarge => PrintError::FrameTooLarge,
            FrameError::ChecksumMismatch => PrintError::ChecksumMismatch,
            FrameError::MalformedFrame => PrintError::MalformedFrame,
        }
    }
}

} // verus!
