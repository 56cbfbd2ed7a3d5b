//! The audio format that the realtime acceptance run asks for.

use vstd::prelude::*;
use crate::text::{parse_u32, parse_u32_spec, push_str, string_from};

verus! {

/// Sample rate used when none is asked for.
pub const DEFAULT_SAMPLE_RATE: u32 = 48_000;

/// Buffer size used when none is asked for.
pub const DEFAULT_BUFFER_FRAMES: u32 = 256;

/// A sample rate and a buffer size, in frames.
#[derive(Clone, Copy, Debug, PartialEq, Eq, Structural)]
pub struct RequestedFormat {
    pub sample_rate: u32,
    pub buffer_frames: u32,
}

/// What `parse_positive_u32` gives: the value, or the error text.
pub open spec fn positive_u32_spec(name: Seq<char>, value: Seq<char>) -> Result<u32, Seq<char>> {
    match parse_u32_spec(value) {
        None => Err(name + " must be a positive integer"@),
        Some(v) => if v == 0 {
            Err(name + " must be non-zero"@)
        } else {
            Ok(v)
        },
    }
}

/// Reads a positive decimal number for the setting `name`.
pub fn parse_positive_u32(name: &str, value: &str) -> (r: Result<u32, String>)
    ensures
        match positive_u32_spec(name@, value@) {
            Ok(v) => r == Ok::<u32, String>(v),
            Err(e) => r matches Err(m) && m@ == e,
        },
{
    match parse_u32(value) {
        None => {
            let mut m = string_from(name);
            push_str(&mut m, " must be a positive integer");
            Err(m)
        },
        Some(v) => if v == 0 {
            let mut m = string_from(name);
            push_str(&mut m, " must be non-zero");
            Err(m)
        } else {
            Ok(v)
        },
    }
}

/// The text of a setting, or the default number's text.
pub open spec fn setting_or(value: Option<Seq<char>>, default: Seq<char>) -> Seq<char> {
    match value {
        Some(v) => v,
        None => default,
    }
}

/// What `requested_format_from` gives: both settings parsed (the sample
/// rate first), and the buffer size limited to 128 or 256 frames.
pub open spec fn requested_format_spec(sample_rate: Option<Seq<char>>, buffer_frames: Option<Seq<char>>) -> Result<
    RequestedFormat,
    Seq<char>,
> {
    match positive_u32_spec("FWP_REALTIME_SAMPLE_RATE"@, setting_or(sample_rate, "48000"@)) {
        Err(e) => Err(e),
        Ok(rate) => match positive_u32_spec("FWP_REALTIME_BUFFER_FRAMES"@, setting_or(buffer_frames, "256"@)) {
            Err(e) => Err(e),
            Ok(frames) => if frames != 128 && frames != 256 {
                Err("FWP_REALTIME_BUFFER_FRAMES must be either 128 or 256"@)
            } else {
                Ok(RequestedFormat { sample_rate: rate, buffer_frames: frames })
            },
        },
    }
}

pub open spec fn opt_str_view(s: Option<&str>) -> Option<Seq<char>> {
    match s {
        Some(t) => Some(t@),
        None => None,
    }
}

/// The format asked for by the sample rate and buffer size settings
/// (defaults: 48000 Hz, 256 frames).
pub fn requested_format_from(sample_rate: Option<&str>, buffer_frames: Option<&str>) -> (r: Result<
    RequestedFormat,
    String,
>)
    ensures
        match requested_format_spec(opt_str_view(sample_rate), opt_str_view(buffer_frames)) {
            Ok(f) => r == Ok::<RequestedFormat, String>(f),
            Err(e) => r matches Err(m) && m@ == e,
        },
{
    let rate_text: &str = match sample_rate {
        Some(s) => s,
        None => "48000",
    };
    let frames_text: &str = match buffer_frames {
        Some(s) => s,
        None => "256",
    };
    let rate = match parse_positive_u32("FWP_REALTIME_SAMPLE_RATE", rate_text) {
        Ok(v) => v,
        Err(e) => return Err(e),
    };
    let frames = match parse_positive_u32("FWP_REALTIME_BUFFER_FRAMES", frames_text) {
        Ok(v) => v,
        Err(e) => return Err(e),
    };
    if frames != 128 && frames != 256 {
        return Err(string_from("FWP_REALTIME_BUFFER_FRAMES must be either 128 or 256"));
    }
    Ok(RequestedFormat { sample_rate: rate, buffer_frames: frames })
}

/// The buffer size asked of the JACK server.
pub fn jack_buffer_frames(requested: RequestedFormat) -> (frames: u32)
    ensures
        frames == requested.buffer_frames,
{
    requested.buffer_frames
}

} // verus!
