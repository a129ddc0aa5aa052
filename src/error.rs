use vstd::prelude::*;

verus! {

/// Every way in which turning an audio file into canonical samples can fail.
#[derive(Clone, Copy, Debug, PartialEq, Eq, Structural)]
pub enum DecodeError {
    /// The source file is missing or unreadable.
    Open,
    /// No known container format was recognised.
    Probe,
    /// No track carries audio.
    NoAudioTrack,
    /// The selected track does not state its sample rate.
    MissingSampleRate,
    /// The codec is unsupported or its parameters are invalid.
    DecoderInit,
    /// Reading the packet stream failed before its end.
    PacketRead,
    /// The decoder hit an error it cannot skip.
    FatalDecode,
    /// The stream was read but no sample was decoded.
    EmptyDecodeResult,
    /// The resampler could not be built or failed on a block.
    Resample,
}

/// How a failed decode of a single packet is to be treated.
#[derive(Clone, Copy, Debug, PartialEq, Eq, Structural)]
pub enum PacketFault {
    /// A malformed or corrupt packet: skipped, decoding goes on.
    Recoverable,
    /// Any other decoder error: the whole decode is abandoned.
    Fatal,
}

pub open spec fn spec_message(e: DecodeError) -> Seq<char> {
    match e {
        DecodeError::Open => "Failed to open audio file"@,
        DecodeError::Probe => "Failed to probe audio format"@,
        DecodeError::NoAudioTrack => "No audio track found in file"@,
        DecodeError::MissingSampleRate => "Audio track has no sample rate"@,
        DecodeError::DecoderInit => "Failed to create audio decoder"@,
        DecodeError::PacketRead => "Error reading audio packet"@,
        DecodeError::FatalDecode => "Fatal decode error"@,
        DecodeError::EmptyDecodeResult => "No audio samples decoded from file"@,
        DecodeError::Resample => "Resampling failed"@,
    }
}

impl DecodeError {
    /// A short description of the failure, for the caller's error report.
    pub fn message(&self) -> (r: &'static str)
        ensures
            r@ == spec_message(*self),
    {
        match self {
            DecodeError::Open => "Failed to open audio file",
            DecodeError::Probe => "Failed to probe audio format",
            DecodeError::NoAudioTrack => "No audio track found in file",
            DecodeError::MissingSampleRate => "Audio track has no sample rate",
            DecodeError::DecoderInit => "Failed to create audio decoder",
            DecodeError::PacketRead => "Error reading audio packet",
            DecodeError::FatalDecode => "Fatal decode error",
            DecodeError::EmptyDecodeResult => "No audio samples decoded from file",
            DecodeError::Resample => "Resampling failed",
        }
    }
}

} // verus!
