//! DSP timing counters: how often each stage of the audio path ran, for how
//! many frames, and how long it took in total and at most.

use vstd::prelude::*;

verus! {

/// Number of timed stages.
pub const NUM_COUNTERS: usize = 12;

/// The counts of one timed stage.  Sums wrap around as the atomic
/// counters they stand for do.
#[derive(Clone, Copy, Debug, PartialEq, Eq, Structural)]
pub struct Counter {
    pub calls: u64,
    pub frames: u64,
    pub total_ticks: u64,
    pub max_ticks: u64,
}

/// A counter after one more run of `frames` frames taking `ticks`.
pub open spec fn recorded(c: Counter, ticks: u64, frames: u64) -> Counter {
    Counter {
        calls: c.calls.wrapping_add(1),
        frames: c.frames.wrapping_add(frames),
        total_ticks: c.total_ticks.wrapping_add(ticks),
        max_ticks: if ticks > c.max_ticks { ticks } else { c.max_ticks },
    }
}

/// The stage names, in counter order.
pub open spec fn stage_name(index: int) -> Seq<char> {
    if index == 0 {
        "audio_callback"@
    } else if index == 1 {
        "root_process"@
    } else if index == 2 {
        "pulse_process"@
    } else if index == 3 {
        "record_process"@
    } else if index == 4 {
        "record_input_mix"@
    } else if index == 5 {
        "record_overdub_mix"@
    } else if index == 6 {
        "record_write"@
    } else if index == 7 {
        "processchain_default"@
    } else if index == 8 {
        "processchain_global"@
    } else if index == 9 {
        "processchain_global_second"@
    } else if index == 10 {
        "processchain_hipriority"@
    } else {
        "processchain_final"@
    }
}

/// The name of stage `index`.
pub fn stage_name_of(index: usize) -> (r: &'static str)
    requires
        index < NUM_COUNTERS,
    ensures
        r@ == stage_name(index as int),
{
    if index == 0 {
        "audio_callback"
    } else if index == 1 {
        "root_process"
    } else if index == 2 {
        "pulse_process"
    } else if index == 3 {
        "record_process"
    } else if index == 4 {
        "record_input_mix"
    } else if index == 5 {
        "record_overdub_mix"
    } else if index == 6 {
        "record_write"
    } else if index == 7 {
        "processchain_default"
    } else if index == 8 {
        "processchain_global"
    } else if index == 9 {
        "processchain_global_second"
    } else if index == 10 {
        "processchain_hipriority"
    } else {
        "processchain_final"
    }
}

/// The profiler: whether it is on, where snapshots go, how many audio
/// callbacks it has seen, and the counter of each stage.
pub struct DspProfile {
    pub enabled: bool,
    pub output_path: Option<String>,
    pub snapshot_counter: u64,
    pub counters: Vec<Counter>,
}

impl DspProfile {
    pub open spec fn wf(&self) -> bool {
        self.counters@.len() == NUM_COUNTERS
    }

    /// A profiler with every counter at zero.
    pub fn new(enabled: bool, output_path: Option<String>) -> (p: DspProfile)
        ensures
            p.wf(),
            p.enabled == enabled,
            p.output_path == output_path,
            p.snapshot_counter == 0,
            forall|i: int| 0 <= i < NUM_COUNTERS ==> p.counters@[i] == (Counter {
                calls: 0,
                frames: 0,
                total_ticks: 0,
                max_ticks: 0,
            }),
    {
        let zero = Counter { calls: 0, frames: 0, total_ticks: 0, max_ticks: 0 };
        let mut counters: Vec<Counter> = Vec::new();
        let mut i: usize = 0;
        while i < NUM_COUNTERS
            invariant
                i <= NUM_COUNTERS,
                counters@.len() == i,
                forall|k: int| 0 <= k < i ==> counters@[k] == zero,
            decreases NUM_COUNTERS - i,
        {
            counters.push(zero);
            i = i + 1;
        }
        DspProfile { enabled, output_path, snapshot_counter: 0, counters }
    }

    /// Whether profiling is on.
    pub fn enabled(&self) -> (r: bool)
        ensures
            r == self.enabled,
    {
        self.enabled
    }

    fn record_at(&mut self, index: usize, ticks: u64, frames: u64)
        requires
            old(self).wf(),
            index < NUM_COUNTERS,
        ensures
            final(self).wf(),
            final(self).counters@ == old(self).counters@.update(
                index as int,
                recorded(old(self).counters@[index as int], ticks, frames),
            ),
            final(self).enabled == old(self).enabled,
            final(self).output_path == old(self).output_path,
            final(self).snapshot_counter == old(self).snapshot_counter,
    {
        let c = self.counters[index];
        let next = Counter {
            calls: c.calls.wrapping_add(1),
            frames: c.frames.wrapping_add(frames),
            total_ticks: c.total_ticks.wrapping_add(ticks),
            max_ticks: if ticks > c.max_ticks { ticks } else { c.max_ticks },
        };
        self.counters.set(index, next);
    }

    /// Counts an audio callback; returns whether a snapshot report is due
    /// (every 128th callback, when snapshots go to a file).
    pub fn record_audio_callback(&mut self, ticks: u64, frames: u64) -> (snapshot: bool)
        requires
            old(self).wf(),
        ensures
            final(self).wf(),
            final(self).counters@ == old(self).counters@.update(0, recorded(old(self).counters@[0], ticks, frames)),
            old(self).output_path is Some ==> final(self).snapshot_counter == old(self).snapshot_counter.wrapping_add(1)
                && snapshot == (final(self).snapshot_counter % 128 == 0),
            old(self).output_path is None ==> final(self).snapshot_counter == old(self).snapshot_counter && !snapshot,
            final(self).enabled == old(self).enabled,
            final(self).output_path == old(self).output_path,
    {
        self.record_at(0, ticks, frames);
        if self.output_path.is_some() {
            self.snapshot_counter = self.snapshot_counter.wrapping_add(1);
            self.snapshot_counter % 128 == 0
        } else {
            false
        }
    }

    pub fn record_root_process(&mut self, ticks: u64, frames: u64)
        requires
            old(self).wf(),
        ensures
            final(self).wf(),
            final(self).counters@ == old(self).counters@.update(1, recorded(old(self).counters@[1], ticks, frames)),
            final(self).snapshot_counter == old(self).snapshot_counter,
    {
        self.record_at(1, ticks, frames);
    }

    pub fn record_pulse_process(&mut self, ticks: u64, frames: u64)
        requires
            old(self).wf(),
        ensures
            final(self).wf(),
            final(self).counters@ == old(self).counters@.update(2, recorded(old(self).counters@[2], ticks, frames)),
            final(self).snapshot_counter == old(self).snapshot_counter,
    {
        self.record_at(2, ticks, frames);
    }

    pub fn record_record_process(&mut self, ticks: u64, frames: u64)
        requires
            old(self).wf(),
        ensures
            final(self).wf(),
            final(self).counters@ == old(self).counters@.update(3, recorded(old(self).counters@[3], ticks, frames)),
            final(self).snapshot_counter == old(self).snapshot_counter,
    {
        self.record_at(3, ticks, frames);
    }

    pub fn record_record_input_mix(&mut self, ticks: u64, frames: u64)
        requires
            old(self).wf(),
        ensures
            final(self).wf(),
            final(self).counters@ == old(self).counters@.update(4, recorded(old(self).counters@[4], ticks, frames)),
            final(self).snapshot_counter == old(self).snapshot_counter,
    {
        self.record_at(4, ticks, frames);
    }

    pub fn record_record_overdub_mix(&mut self, ticks: u64, frames: u64)
        requires
            old(self).wf(),
        ensures
            final(self).wf(),
            final(self).counters@ == old(self).counters@.update(5, recorded(old(self).counters@[5], ticks, frames)),
            final(self).snapshot_counter == old(self).snapshot_counter,
    {
        self.record_at(5, ticks, frames);
    }

    pub fn record_record_write(&mut self, ticks: u64, frames: u64)
        requires
            old(self).wf(),
        ensures
            final(self).wf(),
            final(self).counters@ == old(self).counters@.update(6, recorded(old(self).counters@[6], ticks, frames)),
            final(self).snapshot_counter == old(self).snapshot_counter,
    {
        self.record_at(6, ticks, frames);
    }

    /// Counts a run of processing chain `kind` (0 to 4); other kinds are
    /// ignored.
    pub fn record_process_chain(&mut self, kind: i32, ticks: u64, frames: u64)
        requires
            old(self).wf(),
        ensures
            final(self).wf(),
            0 <= kind <= 4 ==> final(self).counters@ == old(self).counters@.update(
                7 + kind,
                recorded(old(self).counters@[7 + kind], ticks, frames),
            ),
            !(0 <= kind <= 4) ==> final(self).counters@ == old(self).counters@,
            final(self).snapshot_counter == old(self).snapshot_counter,
    {
        if 0 <= kind && kind <= 4 {
            self.record_at(7 + kind as usize, ticks, frames);
        }
    }
}

/// Law: recording a run counts one more call and keeps the longest run
/// seen: the new maximum is the larger of the old one and the run.
pub proof fn law_record_keeps_maximum(c: Counter, ticks: u64, frames: u64)
    ensures
        recorded(c, ticks, frames).max_ticks >= ticks,
        recorded(c, ticks, frames).max_ticks >= c.max_ticks,
        recorded(c, ticks, frames).max_ticks == ticks || recorded(c, ticks, frames).max_ticks == c.max_ticks,
        c.calls < u64::MAX ==> recorded(c, ticks, frames).calls == c.calls + 1,
{
}

} // verus!
