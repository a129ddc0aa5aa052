//! Verified core of an audio ingestion pipeline: it selects the audio track
//! of a probed container, drives the packet/decode loop, lays out the mono
//! mixdown and plans block-based sample-rate conversion to a fixed rate.
use vstd::prelude::*;

pub mod error;
pub mod resample_plan;
pub mod session;
pub mod track;
pub mod transcription;

verus! {

/// Sample rate of the canonical output signal, in Hz.
pub const TARGET_SAMPLE_RATE: u32 = 16000;

} // verus!
