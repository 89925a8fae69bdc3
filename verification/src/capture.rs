//! How the microphone stream is opened: straight at 16 kHz mono when the
//! device offers it, so nothing on the way has to resample; otherwise at the
//! device's own default format, resampled to 16 kHz.
use vstd::prelude::*;
use crate::voice::session::VOICE_SAMPLE_RATE;

verus! {

/// One range of input formats a device offers.
#[derive(Debug, Clone, Copy, PartialEq, Eq, Structural)]
pub struct InputRange {
    pub channels: u16,
    pub min_rate: u32,
    pub max_rate: u32,
}

/// A stream format: channels and sample rate.
#[derive(Debug, Clone, Copy, PartialEq, Eq, Structural)]
pub struct StreamFormat {
    pub channels: u16,
    pub sample_rate: u32,
}

/// How to open the stream.
#[derive(Debug, Clone, Copy, PartialEq, Eq, Structural)]
pub enum CapturePlan {
    /// Open at 16 kHz mono; no resampling anywhere.
    Direct,
    /// Open at the device's default format and resample its rate to 16 kHz.
    Resample(StreamFormat),
}

/// The device can record 16 kHz mono directly.
pub open spec fn offers_voice_rate(ranges: Seq<InputRange>) -> bool {
    exists|i: int|
        0 <= i < ranges.len() && (#[trigger] ranges[i]).channels == 1 && ranges[i].min_rate <= VOICE_SAMPLE_RATE
            && ranges[i].max_rate >= VOICE_SAMPLE_RATE
}

/// Whether one of the device's ranges is mono and includes 16 kHz.
pub fn accepts_voice_rate(ranges: &Vec<InputRange>) -> (r: bool)
    ensures
        r == offers_voice_rate(ranges@),
{
    let mut i: usize = 0;
    while i < ranges.len()
        invariant
            i <= ranges@.len(),
            forall|k: int|
                0 <= k < i ==> !((#[trigger] ranges@[k]).channels == 1 && ranges@[k].min_rate <= VOICE_SAMPLE_RATE
                    && ranges@[k].max_rate >= VOICE_SAMPLE_RATE),
        decreases ranges@.len() - i,
    {
        let range = ranges[i];
        if range.channels == 1 && range.min_rate <= VOICE_SAMPLE_RATE && range.max_rate >= VOICE_SAMPLE_RATE {
            return true;
        }
        i = i + 1;
    }
    false
}

/// The stream to open, given the device's ranges (an empty list when they
/// cannot be read) and its default format.
pub fn capture_plan(ranges: &Vec<InputRange>, default: StreamFormat) -> (r: CapturePlan)
    ensures
        offers_voice_rate(ranges@) ==> r == CapturePlan::Direct,
        !offers_voice_rate(ranges@) ==> r == CapturePlan::Resample(default),
{
    if accepts_voice_rate(ranges) {
        CapturePlan::Direct
    } else {
        CapturePlan::Resample(default)
    }
}

} // verus!
