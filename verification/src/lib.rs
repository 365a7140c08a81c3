use vstd::prelude::*;

pub mod detect;
pub mod fcpxml;
pub mod loudness;
pub mod numfmt;
pub mod pipeline;

verus! {

/// The failure kinds of the analysis pipeline.  Every failure is terminal:
/// the run aborts at the first error and no partial timeline is produced.
#[derive(Clone, Copy, Debug, PartialEq, Eq, Structural)]
pub enum Error {
    /// No audio or no video stream is present in the input.
    StreamNotFound,
    /// A decoded frame's sample layout is not the one supported layout.
    UnsupportedSampleFormat,
    /// The decoder reported a malformed bitstream.
    DecodeError,
    /// The video stream reports zero frames.
    EmptyInput,
    /// Fewer audio samples than video frames, so no frame gets a group.
    InsufficientSamples,
    /// The output file could not be created or written.
    IOError,
}

pub open spec fn spec_message(e: Error) -> Seq<char> {
    match e {
        Error::StreamNotFound => "no audio or video stream found"@,
        Error::UnsupportedSampleFormat => "unsupported audio sample format"@,
        Error::DecodeError => "failed to decode the input bitstream"@,
        Error::EmptyInput => "the video stream has no frames"@,
        Error::InsufficientSamples => "fewer audio samples than video frames"@,
        Error::IOError => "could not write the output file"@,
    }
}

impl Error {
    /// A human-readable description of the failure.
    pub fn message(&self) -> (r: &'static str)
        ensures
            r@ == spec_message(*self),
    {
        match self {
            Error::StreamNotFound => "no audio or video stream found",
            Error::UnsupportedSampleFormat => "unsupported audio sample format",
            Error::DecodeError => "failed to decode the input bitstream",
            Error::EmptyInput => "the video stream has no frames",
            Error::InsufficientSamples => "fewer audio samples than video frames",
            Error::IOError => "could not write the output file",
        }
    }
}

} // verus!
