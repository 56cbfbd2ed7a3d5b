//! The signal processing graph's plain parts: processor priorities, pulse
//! synchronisation states and hooks, the file streamer's state, and the
//! audio backend's reported figures and options.

use vstd::prelude::*;
use crate::audio_format::{AudioDeviceInfo, AudioLatency};
use crate::text::string_from;

verus! {

/// A number of audio frames.
pub type NFrames = u32;

/// The chain a processor runs in, in running order.
#[derive(Debug, Clone, Copy, PartialEq, Eq, Structural)]
pub enum ProcessorPriority {
    Default,
    Global,
    GlobalSecondChain,
    HiPriority,
    Final,
}

/// The index of a priority's chain.
pub open spec fn priority_index(p: ProcessorPriority) -> i32 {
    match p {
        ProcessorPriority::Default => 0,
        ProcessorPriority::Global => 1,
        ProcessorPriority::GlobalSecondChain => 2,
        ProcessorPriority::HiPriority => 3,
        ProcessorPriority::Final => 4,
    }
}

impl ProcessorPriority {
    /// The index of this priority's chain (0 to 4).
    pub fn index(self) -> (i: i32)
        ensures
            i == priority_index(self),
    {
        match self {
            ProcessorPriority::Default => 0,
            ProcessorPriority::Global => 1,
            ProcessorPriority::GlobalSecondChain => 2,
            ProcessorPriority::HiPriority => 3,
            ProcessorPriority::Final => 4,
        }
    }
}

/// Where a pulse is in its synchronisation cycle.
#[derive(Clone, Copy, Debug, PartialEq, Eq, Structural)]
pub enum SyncState {
    NoSync,
    Start,
    Beat,
    End,
    Ended,
}

/// Told when a pulse reaches a synchronisation point.
pub trait PulseSyncCallback {
    fn pulse_sync(&mut self, sync_index: usize, actual_pos: u32);
}

/// Told of pulse, clock and transport events.
pub trait PulseEvents {
    fn pulse_sync(&mut self);

    fn midi_clock(&mut self);

    fn midi_start_stop(&mut self, start: bool);

    fn hi_priority_trigger(&mut self) {
    }
}

/// Told when a pulse passes a position.
pub trait SyncCallback {
    fn pulse_sync(&mut self, position: usize);
}

/// Writes a stream of audio to a file.
pub trait StreamWriter {
    fn start(&mut self, name: &str) -> bool;

    fn stop(&mut self);
}

/// Streams output to a file: stopped, running, or waiting to stop at the
/// next processing block.
pub struct FileStreamer<W> {
    pub writer: W,
    pub input_index: usize,
    pub stereo: bool,
    pub status: u8,
    pub output_size: usize,
}

/// Stream states.
pub const STREAM_STOPPED: u8 = 0;

pub const STREAM_RUNNING: u8 = 1;

pub const STREAM_STOP_PENDING: u8 = 2;

impl<W: StreamWriter> FileStreamer<W> {
    /// A stopped streamer.
    pub fn new(writer: W, input_index: usize, stereo: bool) -> (f: Self)
        ensures
            f.writer == writer,
            f.input_index == input_index,
            f.stereo == stereo,
            f.status == STREAM_STOPPED,
            f.output_size == 0,
    {
        FileStreamer { writer, input_index, stereo, status: STREAM_STOPPED, output_size: 0 }
    }

    /// Starts writing to `name`; the streamer runs when the writer started.
    pub fn start_writing(&mut self, name: &str) -> (r: bool)
        ensures
            r ==> final(self).status == STREAM_RUNNING,
            !r ==> final(self).status == old(self).status,
            final(self).input_index == old(self).input_index,
            final(self).stereo == old(self).stereo,
            final(self).output_size == old(self).output_size,
    {
        if self.writer.start(name) {
            self.status = STREAM_RUNNING;
            true
        } else {
            false
        }
    }

    /// Asks a running streamer to stop at the next block.
    pub fn stop_writing(&mut self)
        ensures
            old(self).status == STREAM_RUNNING ==> final(self).status == STREAM_STOP_PENDING,
            old(self).status != STREAM_RUNNING ==> final(self).status == old(self).status,
            final(self).writer == old(self).writer,
    {
        if self.status == STREAM_RUNNING {
            self.status = STREAM_STOP_PENDING;
        }
    }
}

/// The part of the configuration that the audio buffers read.
pub trait AudioBufferConfig {
    fn is_stereo_input(&self, input: usize) -> bool;

    fn is_stereo_output(&self, output: usize) -> bool;

    fn is_stereo_master(&self) -> bool;

    fn sample_rate(&self) -> NFrames;
}

/// Level conversions between faders and decibels.
pub struct AudioLevel;

/// Options for opening a JACK client.
pub struct JackOptions {
    pub midi_inputs: usize,
    pub midi_outputs: usize,
    pub client_name: String,
    pub connect_audio: bool,
    pub connect_midi: bool,
    pub realtime: bool,
}

impl JackOptions {
    /// One MIDI input and output, a client called `FreeWheeling`, ports
    /// connected, realtime.
    pub fn default_options() -> (o: JackOptions)
        ensures
            o.midi_inputs == 1,
            o.midi_outputs == 1,
            o.client_name@ == "FreeWheeling"@,
            o.connect_audio,
            o.connect_midi,
            o.realtime,
    {
        JackOptions {
            midi_inputs: 1,
            midi_outputs: 1,
            client_name: string_from("FreeWheeling"),
            connect_audio: true,
            connect_midi: true,
            realtime: true,
        }
    }
}

/// Commands to the JACK transport.
#[derive(Clone, Copy, Debug, PartialEq, Eq, Structural)]
pub enum TransportCommand {
    Start,
    Stop,
    Relocate(NFrames),
}

/// Counters of the audio stream's health.
#[derive(Clone, Copy, Debug, PartialEq, Eq, Structural)]
pub struct AudioMetrics {
    pub capture_overruns: u64,
    pub capture_underruns: u64,
    pub xruns: u64,
    pub stream_errors: u64,
    pub callbacks: u64,
    pub callback_frames: u64,
    pub callback_peak_nanos: u64,
    pub callback_total_nanos: u64,
    pub recovery_requests: u64,
}

/// Counts of stream recoveries.
#[derive(Clone, Copy, Debug, PartialEq, Eq, Structural)]
pub struct AudioRecoveryMetrics {
    pub attempts: u64,
    pub failures: u64,
}

/// The format a backend opened with.
#[derive(Clone, Copy, Debug, PartialEq, Eq, Structural)]
pub struct BackendInfo {
    pub sample_rate: NFrames,
    pub buffer_size: NFrames,
}

/// What the audio backend reports of itself.
#[derive(Clone, Debug)]
pub struct CpalAudioStatus {
    pub active: bool,
    pub input: Option<AudioDeviceInfo>,
    pub output: Option<AudioDeviceInfo>,
    pub format: Option<BackendInfo>,
    pub capture_callbacks: u64,
    pub playback_callbacks: u64,
    pub latency: Option<AudioLatency>,
    pub metrics: AudioMetrics,
}

/// A copy of a device description, field for field.
pub fn copy_device_info(d: &AudioDeviceInfo) -> (r: AudioDeviceInfo)
    ensures
        r.id@ == d.id@,
        r.name@ == d.name@,
        r.is_default == d.is_default,
{
    AudioDeviceInfo { id: string_from(d.id.as_str()), name: string_from(d.name.as_str()), is_default: d.is_default }
}

/// The same device, or none, on both sides.
pub open spec fn same_device(a: Option<AudioDeviceInfo>, b: Option<AudioDeviceInfo>) -> bool {
    match (a, b) {
        (Some(x), Some(y)) => x.id@ == y.id@ && x.name@ == y.name@ && x.is_default == y.is_default,
        (None, None) => true,
        _ => false,
    }
}

fn copy_device(d: &Option<AudioDeviceInfo>) -> (r: Option<AudioDeviceInfo>)
    ensures
        same_device(r, *d),
{
    match d {
        Some(x) => Some(copy_device_info(x)),
        None => None,
    }
}

/// The status `t` reports the same as `s`.
pub open spec fn same_status(t: CpalAudioStatus, s: CpalAudioStatus) -> bool {
    &&& t.active == s.active
    &&& same_device(t.input, s.input)
    &&& same_device(t.output, s.output)
    &&& t.format == s.format
    &&& t.capture_callbacks == s.capture_callbacks
    &&& t.playback_callbacks == s.playback_callbacks
    &&& t.latency == s.latency
    &&& t.metrics == s.metrics
}

fn copy_status(s: &CpalAudioStatus) -> (t: CpalAudioStatus)
    ensures
        same_status(t, *s),
{
    CpalAudioStatus {
        active: s.active,
        input: copy_device(&s.input),
        output: copy_device(&s.output),
        format: s.format,
        capture_callbacks: s.capture_callbacks,
        playback_callbacks: s.playback_callbacks,
        latency: s.latency,
        metrics: s.metrics,
    }
}

/// The backends an application can run on.
pub enum AnyAudioBackend {
    /// The cross-platform backend, with its current status.
    Cpal(CpalAudioStatus),
    /// The JACK backend, which reports no status.
    Jack,
    /// The native AudioUnit backend, with its current status.
    AudioUnit(CpalAudioStatus),
}

impl AnyAudioBackend {
    /// The backend's status, when it reports one.
    pub fn status(&self) -> (r: Option<CpalAudioStatus>)
        ensures
            match self {
                AnyAudioBackend::Cpal(s) => r matches Some(t) && same_status(t, *s),
                AnyAudioBackend::Jack => r is None,
                AnyAudioBackend::AudioUnit(s) => r matches Some(t) && same_status(t, *s),
            },
    {
        match self {
            AnyAudioBackend::Cpal(s) => Some(copy_status(s)),
            AnyAudioBackend::Jack => None,
            AnyAudioBackend::AudioUnit(s) => Some(copy_status(s)),
        }
    }
}

} // verus!
