//! Choosing a stream format that both audio devices support, and the plain
//! descriptions of devices and their state.

use vstd::prelude::*;
use crate::text::{push_str, string_from};

verus! {

/// Sample rate preferred when nothing else is asked for.
pub const DEFAULT_RATE: u32 = 48_000;

/// Largest buffer, in frames, that one audio callback handles.
pub const MAX_CALLBACK_FRAMES: usize = 16_384;

/// Which devices to open, by stable id or, failing that, by name.
#[derive(Clone, Debug)]
pub struct DeviceSelection {
    pub input_id: Option<String>,
    pub output_id: Option<String>,
    pub input_name: Option<String>,
    pub output_name: Option<String>,
}

/// A device as the host lists it.
#[derive(Clone, Debug)]
pub struct AudioDeviceInfo {
    pub id: String,
    pub name: String,
    pub is_default: bool,
}

/// Estimated latency in frames: the devices' own, the software queue, and
/// the resulting round trip.
#[derive(Clone, Copy, Debug, PartialEq, Eq, Structural)]
pub struct AudioLatency {
    pub input_device_frames: u32,
    pub output_device_frames: u32,
    pub software_queue_frames: u32,
    pub estimated_round_trip_frames: u32,
}

/// The format the audio backend asks for, and how many periods its queue
/// holds.
#[derive(Clone, Copy, Debug, PartialEq, Eq, Structural)]
pub struct CpalAudioOptions {
    pub preferred_sample_rate: u32,
    pub preferred_buffer_frames: u32,
    pub ring_periods: usize,
}

/// `x` limited to `lo..=hi`.
pub open spec fn clamp_u32(x: u32, lo: u32, hi: u32) -> u32 {
    if x < lo { lo } else if x > hi { hi } else { x }
}

/// The buffer size both devices accept closest to `preferred`: within the
/// overlap of their ranges and the callback limit; none when they do not
/// overlap or a range is unknown.
pub open spec fn buffer_choice(preferred: u32, input: Option<(u32, u32)>, output: Option<(u32, u32)>) -> Option<u32> {
    match (input, output) {
        (Some(i), Some(o)) => {
            let lo = if i.0 > o.0 { i.0 } else { o.0 };
            let hi0 = if i.1 < o.1 { i.1 } else { o.1 };
            let hi = if hi0 < 16_384 { hi0 } else { 16_384u32 };
            if lo <= hi {
                Some(clamp_u32(preferred, lo, hi))
            } else {
                None
            }
        },
        _ => None,
    }
}

/// Chooses the buffer size in frames.
pub fn choose_buffer_frames(preferred: u32, input: Option<(u32, u32)>, output: Option<(u32, u32)>) -> (r: Option<u32>)
    ensures
        r == buffer_choice(preferred, input, output),
{
    let i = match input {
        Some(i) => i,
        None => return None,
    };
    let o = match output {
        Some(o) => o,
        None => return None,
    };
    let lo = if i.0 > o.0 { i.0 } else { o.0 };
    let hi0 = if i.1 < o.1 { i.1 } else { o.1 };
    let hi = if hi0 < 16_384 { hi0 } else { 16_384 };
    if lo <= hi {
        Some(if preferred < lo { lo } else if preferred > hi { hi } else { preferred })
    } else {
        None
    }
}

/// Law: a chosen buffer size lies within both devices' ranges and the
/// callback limit.
pub proof fn law_buffer_choice_in_ranges(preferred: u32, input: Option<(u32, u32)>, output: Option<(u32, u32)>)
    ensures
        buffer_choice(preferred, input, output) matches Some(b) ==> (input matches Some(i) && i.0 <= b
            && b <= i.1) && (output matches Some(o) && o.0 <= b && b <= o.1) && b <= MAX_CALLBACK_FRAMES,
{
}

/// Channels per frame that the application works with.
pub const NUM_CHANNELS: usize = 2;

/// A range of stream configurations that a device supports.
#[derive(Clone, Copy, Debug)]
pub struct StreamConfigRange {
    pub channels: u16,
    pub min_sample_rate: u32,
    pub max_sample_rate: u32,
    /// Buffer sizes in frames, when the device reports them.
    pub buffer_size: Option<(u32, u32)>,
    /// Whether the samples are 32-bit floats.
    pub is_f32: bool,
}

/// The ranges with 32-bit float samples, in order.
pub open spec fn f32_only(rs: Seq<StreamConfigRange>) -> Seq<StreamConfigRange>
    decreases rs.len(),
{
    if rs.len() == 0 {
        Seq::empty()
    } else if rs.last().is_f32 {
        f32_only(rs.drop_last()).push(rs.last())
    } else {
        f32_only(rs.drop_last())
    }
}

/// Whether a range covers `rate`.
pub open spec fn covers(r: StreamConfigRange, rate: u32) -> bool {
    r.min_sample_rate <= rate && rate <= r.max_sample_rate
}

/// Whether some range covers `rate`.
pub open spec fn some_covers(rs: Seq<StreamConfigRange>, rate: u32) -> bool {
    exists|k: int| 0 <= k < rs.len() && covers(#[trigger] rs[k], rate)
}

/// The buffer sizes a range allows: as reported, or any callback size.
pub open spec fn buffer_limits(r: StreamConfigRange) -> (u32, u32) {
    match r.buffer_size {
        Some(b) => b,
        None => (1, 16_384),
    }
}

/// The widest buffer limits of the ranges that cover `rate`.
pub open spec fn buffer_limit_spec(rs: Seq<StreamConfigRange>, rate: u32) -> Option<(u32, u32)>
    decreases rs.len(),
{
    if rs.len() == 0 {
        None
    } else {
        let rest = buffer_limit_spec(rs.drop_last(), rate);
        if covers(rs.last(), rate) {
            let b = buffer_limits(rs.last());
            match rest {
                None => Some(b),
                Some(a) => Some((if a.0 < b.0 { a.0 } else { b.0 }, if a.1 > b.1 { a.1 } else { b.1 })),
            }
        } else {
            rest
        }
    }
}

/// Distance between two rates.
pub open spec fn rate_distance(a: u32, b: u32) -> int {
    if a >= b { a - b } else { b - a }
}

/// The sample rates tried, before their order by closeness.
pub open spec fn rate_candidates(preferred: u32) -> Seq<u32> {
    seq![preferred, 48_000u32, 44_100u32, 96_000u32]
}

/// Among the first `k` candidates that both sides cover, the index of the
/// one closest to `preferred` (the earlier one on a tie).
pub open spec fn closest_candidate(
    c: Seq<u32>,
    k: int,
    preferred: u32,
    ins: Seq<StreamConfigRange>,
    outs: Seq<StreamConfigRange>,
) -> Option<int>
    decreases k,
{
    if k <= 0 {
        None
    } else {
        let b = closest_candidate(c, k - 1, preferred, ins, outs);
        let x = c[k - 1];
        if some_covers(ins, x) && some_covers(outs, x) && (b is None || rate_distance(x, preferred)
            < rate_distance(c[b.unwrap()], preferred)) {
            Some(k - 1)
        } else {
            b
        }
    }
}

/// The rate of the first pair of ranges (input ranges first, then output
/// ranges) that overlap: the preferred rate kept within their overlap.
pub open spec fn overlap_rate(ins: Seq<StreamConfigRange>, outs: Seq<StreamConfigRange>, preferred: u32, i: int, j: int) -> Option<u32>
    decreases ins.len() - i, outs.len() - j,
{
    if i < 0 || i >= ins.len() {
        None
    } else if j < 0 || j >= outs.len() {
        overlap_rate(ins, outs, preferred, i + 1, 0)
    } else {
        let lo = if ins[i].min_sample_rate > outs[j].min_sample_rate { ins[i].min_sample_rate } else { outs[j].min_sample_rate };
        let hi = if ins[i].max_sample_rate < outs[j].max_sample_rate { ins[i].max_sample_rate } else { outs[j].max_sample_rate };
        if lo <= hi {
            Some(clamp_u32(preferred, lo, hi))
        } else {
            overlap_rate(ins, outs, preferred, i, j + 1)
        }
    }
}

/// The format that both devices can run: the sample rate (the closest
/// supported candidate, else the first overlap) and the buffer size.
pub open spec fn negotiated(input: Seq<StreamConfigRange>, output: Seq<StreamConfigRange>, options: CpalAudioOptions) -> Result<(u32, u32), Seq<char>> {
    let ins = f32_only(input);
    let outs = f32_only(output);
    let preferred = if options.preferred_sample_rate > 1 { options.preferred_sample_rate } else { 1u32 };
    let c = rate_candidates(preferred);
    let rate = match closest_candidate(c, 4, preferred, ins, outs) {
        Some(i) => Some(c[i]),
        None => overlap_rate(ins, outs, preferred, 0, 0),
    };
    match rate {
        None => Err("input and output have no common f32 sample rate"@),
        Some(rate) => {
            let requested = if options.preferred_buffer_frames > 1 { options.preferred_buffer_frames } else { 1u32 };
            match buffer_choice(requested, buffer_limit_spec(ins, rate), buffer_limit_spec(outs, rate)) {
                None => Err("input and output have no common fixed buffer size"@),
                Some(b) => Ok((rate, b)),
            }
        },
    }
}

/// The ranges with 32-bit float samples.
pub fn f32_ranges(ranges: &[StreamConfigRange]) -> (r: Vec<StreamConfigRange>)
    ensures
        r@ == f32_only(ranges@),
{
    let mut r: Vec<StreamConfigRange> = Vec::new();
    let mut i: usize = 0;
    while i < ranges.len()
        invariant
            i <= ranges@.len(),
            r@ == f32_only(ranges@.take(i as int)),
        decreases ranges@.len() - i,
    {
        proof {
            assert(ranges@.take(i + 1).drop_last() =~= ranges@.take(i as int));
        }
        if ranges[i].is_f32 {
            r.push(ranges[i]);
        }
        i = i + 1;
    }
    assert(ranges@.take(ranges@.len() as int) =~= ranges@);
    r
}

/// Whether some range covers `rate`.
pub fn supports_rate(ranges: &[StreamConfigRange], rate: u32) -> (r: bool)
    ensures
        r == some_covers(ranges@, rate),
{
    let mut i: usize = 0;
    while i < ranges.len()
        invariant
            i <= ranges@.len(),
            forall|k: int| 0 <= k < i ==> !covers(#[trigger] ranges@[k], rate),
        decreases ranges@.len() - i,
    {
        if ranges[i].min_sample_rate <= rate && rate <= ranges[i].max_sample_rate {
            assert(covers(ranges@[i as int], rate));
            return true;
        }
        i = i + 1;
    }
    false
}

/// The widest buffer limits among the ranges that cover `rate`.
pub fn common_buffer_limit(ranges: &[StreamConfigRange], rate: u32) -> (r: Option<(u32, u32)>)
    ensures
        r == buffer_limit_spec(ranges@, rate),
{
    let mut acc: Option<(u32, u32)> = None;
    let mut i: usize = 0;
    while i < ranges.len()
        invariant
            i <= ranges@.len(),
            acc == buffer_limit_spec(ranges@.take(i as int), rate),
        decreases ranges@.len() - i,
    {
        proof {
            assert(ranges@.take(i + 1).drop_last() =~= ranges@.take(i as int));
        }
        let r = ranges[i];
        if r.min_sample_rate <= rate && rate <= r.max_sample_rate {
            let b = match r.buffer_size {
                Some(b) => b,
                None => (1, 16_384),
            };
            acc = match acc {
                None => Some(b),
                Some(a) => Some((if a.0 < b.0 { a.0 } else { b.0 }, if a.1 > b.1 { a.1 } else { b.1 })),
            };
        }
        i = i + 1;
    }
    assert(ranges@.take(ranges@.len() as int) =~= ranges@);
    acc
}

fn distance(a: u32, b: u32) -> (d: u32)
    ensures
        d == rate_distance(a, b),
{
    if a >= b { a - b } else { b - a }
}

/// Chooses the sample rate and buffer size for an input and an output
/// device from the configurations they support.
pub fn negotiate_format(input: &[StreamConfigRange], output: &[StreamConfigRange], options: CpalAudioOptions) -> (r: Result<(u32, u32), String>)
    ensures
        match negotiated(input@, output@, options) {
            Ok(f) => r == Ok::<(u32, u32), String>(f),
            Err(e) => r matches Err(m) && m@ == e,
        },
{
    let ins = f32_ranges(input);
    let outs = f32_ranges(output);
    let preferred = if options.preferred_sample_rate > 1 { options.preferred_sample_rate } else { 1 };
    let candidates: [u32; 4] = [preferred, 48_000, 44_100, 96_000];
    let ghost c = rate_candidates(preferred);
    assert(candidates@ =~= c);
    let mut best: Option<usize> = None;
    let mut k: usize = 0;
    while k < 4
        invariant
            k <= 4,
            candidates@ == c,
            c == rate_candidates(preferred),
            ins@ == f32_only(input@),
            outs@ == f32_only(output@),
            match best {
                Some(b) => closest_candidate(c, k as int, preferred, ins@, outs@) == Some(b as int) && b < k,
                None => closest_candidate(c, k as int, preferred, ins@, outs@) is None,
            },
        decreases 4 - k,
    {
        let x = candidates[k];
        let ok = supports_rate(ins.as_slice(), x) && supports_rate(outs.as_slice(), x);
        let closer = match best {
            None => true,
            Some(b) => distance(x, preferred) < distance(candidates[b], preferred),
        };
        if ok && closer {
            best = Some(k);
        }
        k = k + 1;
    }
    let rate = match best {
        Some(b) => Some(candidates[b]),
        None => overlap_rate_exec(ins.as_slice(), outs.as_slice(), preferred),
    };
    let rate = match rate {
        Some(r) => r,
        None => return Err(string_from("input and output have no common f32 sample rate")),
    };
    let requested = if options.preferred_buffer_frames > 1 { options.preferred_buffer_frames } else { 1 };
    let input_buffer = common_buffer_limit(ins.as_slice(), rate);
    let output_buffer = common_buffer_limit(outs.as_slice(), rate);
    match choose_buffer_frames(requested, input_buffer, output_buffer) {
        Some(b) => Ok((rate, b)),
        None => Err(string_from("input and output have no common fixed buffer size")),
    }
}

fn overlap_rate_exec(ins: &[StreamConfigRange], outs: &[StreamConfigRange], preferred: u32) -> (r: Option<u32>)
    ensures
        r == overlap_rate(ins@, outs@, preferred, 0, 0),
{
    let mut i: usize = 0;
    while i < ins.len()
        invariant
            i <= ins@.len(),
            overlap_rate(ins@, outs@, preferred, 0, 0) == overlap_rate(ins@, outs@, preferred, i as int, 0),
        decreases ins@.len() - i,
    {
        let mut j: usize = 0;
        while j < outs.len()
            invariant
                i < ins@.len(),
                j <= outs@.len(),
                overlap_rate(ins@, outs@, preferred, 0, 0) == overlap_rate(ins@, outs@, preferred, i as int, j as int),
            decreases outs@.len() - j,
        {
            let a = ins[i];
            let b = outs[j];
            let lo = if a.min_sample_rate > b.min_sample_rate { a.min_sample_rate } else { b.min_sample_rate };
            let hi = if a.max_sample_rate < b.max_sample_rate { a.max_sample_rate } else { b.max_sample_rate };
            if lo <= hi {
                return Some(if preferred < lo { lo } else if preferred > hi { hi } else { preferred });
            }
            j = j + 1;
        }
        i = i + 1;
    }
    None
}

/// The name of a stream direction.
pub fn direction(input: bool) -> (s: &'static str)
    ensures
        s@ == (if input { "input"@ } else { "output"@ }),
{
    if input { "input" } else { "output" }
}

/// Among the first `k` ranges with float samples that cover `rate`, the
/// index of the one whose channel count is closest to two (the earlier on
/// a tie).
pub open spec fn closest_channels(rs: Seq<StreamConfigRange>, rate: u32, k: int) -> Option<int>
    decreases k,
{
    if k <= 0 {
        None
    } else {
        let b = closest_channels(rs, rate, k - 1);
        let r = rs[k - 1];
        if r.is_f32 && covers(r, rate) && (b is None || rate_distance(r.channels as u32, 2) < rate_distance(
            rs[b.unwrap()].channels as u32,
            2,
        )) {
            Some(k - 1)
        } else {
            b
        }
    }
}

/// The channel count to open a device with: among its float formats that
/// cover `rate`, the one closest to stereo.
pub fn best_channel_count(ranges: &[StreamConfigRange], input: bool, rate: u32) -> (r: Result<u16, String>)
    ensures
        match closest_channels(ranges@, rate, ranges@.len() as int) {
            Some(k) => r == Ok::<u16, String>(ranges@[k].channels),
            None => r matches Err(m) && m@ == "audio "@ + (if input { "input"@ } else { "output"@ })
                + " has no negotiated f32 format"@,
        },
{
    let mut best: Option<usize> = None;
    let mut k: usize = 0;
    while k < ranges.len()
        invariant
            k <= ranges@.len(),
            match best {
                Some(b) => closest_channels(ranges@, rate, k as int) == Some(b as int) && b < k,
                None => closest_channels(ranges@, rate, k as int) is None,
            },
        decreases ranges@.len() - k,
    {
        let r = ranges[k];
        let ok = r.is_f32 && r.min_sample_rate <= rate && rate <= r.max_sample_rate;
        let closer = match best {
            None => true,
            Some(b) => distance(r.channels as u32, 2) < distance(ranges[b].channels as u32, 2),
        };
        if ok && closer {
            best = Some(k);
        }
        k = k + 1;
    }
    match best {
        Some(b) => Ok(ranges[b].channels),
        None => {
            let mut m = string_from("audio ");
            push_str(&mut m, direction(input));
            push_str(&mut m, " has no negotiated f32 format");
            Err(m)
        },
    }
}

} // verus!
