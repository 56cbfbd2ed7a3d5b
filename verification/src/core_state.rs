//! Application state shared by the core: loops in the tray, loop and
//! stream states, the events that drive a session, and the core that runs
//! one.

use vstd::prelude::*;
use std::collections::BTreeMap;
use crate::text::{decimal_nat, push_char, push_decimal_u64, push_str, string_from};

verus! {

/// A loaded loop shown in the loop tray, identified by its loop id.
#[derive(Clone, Debug)]
pub struct LoopTrayItem {
    pub loop_id: i32,
    pub name: String,
    pub default_name: bool,
    pub place_name: String,
    pub x: i32,
    pub y: i32,
}

impl LoopTrayItem {
    /// A tray entry not placed on screen yet.
    pub fn new(loop_id: i32, name: &str, default_name: bool, place_name: &str) -> (it: LoopTrayItem)
        ensures
            it.loop_id == loop_id,
            it.name@ == name@,
            it.default_name == default_name,
            it.place_name@ == place_name@,
            it.x == -1,
            it.y == -1,
    {
        LoopTrayItem {
            loop_id,
            name: string_from(name),
            default_name,
            place_name: string_from(place_name),
            x: -1,
            y: -1,
        }
    }

    /// Orders tray entries by loop id: positive when `other` has the
    /// larger id.
    pub fn compare(&self, other: &LoopTrayItem) -> (r: i32)
        requires
            i32::MIN <= other.loop_id - self.loop_id <= i32::MAX,
        ensures
            r == other.loop_id - self.loop_id,
    {
        other.loop_id - self.loop_id
    }

    /// Whether this entry shows loop `loop_id`.
    pub fn matches(&self, loop_id: i32) -> (r: bool)
        ensures
            r == (self.loop_id == loop_id),
    {
        self.loop_id == loop_id
    }
}

/// What a loop is doing.
#[derive(Clone, Copy, Debug, PartialEq, Eq, Structural)]
pub enum LoopStatus {
    Off,
    Recording,
    Overdubbing,
    Playing,
}

/// Events that drive a session.
#[derive(Clone, Copy, Debug, PartialEq, Eq, Structural)]
pub enum CoreEvent {
    StartSession,
    ExitSession,
    ToggleDiskOutput,
}

/// Whether the output stream is being written.
#[derive(Clone, Copy, Debug, PartialEq, Eq, Structural)]
pub enum StreamState {
    Stopped,
    Writing,
}

/// One loop's part of a snapshot.  The two volumes (`f32`) are carried as
/// their bit patterns; nothing here computes with them.
#[derive(Clone, Debug, PartialEq)]
pub struct LoopSnapshot {
    pub loop_id: usize,
    pub status: LoopStatus,
    pub loop_volume_bits: u32,
    pub trigger_volume_bits: u32,
}

/// A named state of all loops that can be brought back.
#[derive(Clone, Debug, PartialEq)]
pub struct Snapshot {
    pub name: String,
    pub loops: Vec<LoopSnapshot>,
}

/// What the core needs of the rest of the application.
pub trait CoreServices {
    fn setup(&mut self) -> Result<(), String>;

    fn start_session(&mut self) -> Result<(), String>;

    fn start_interfaces(&mut self) -> Result<(), String>;

    fn poll_event(&mut self) -> Result<Option<CoreEvent>, String>;

    fn set_streaming(&mut self, enabled: bool, sequence: u64) -> Result<(), String>;

    fn stream_state(&self) -> StreamState;

    fn stream_bytes(&self) -> u64;

    fn close_video(&mut self);

    fn close_sdl(&mut self);

    fn close_midi(&mut self);

    fn close_audio(&mut self);

    fn shutdown(&mut self);

    fn rollback_setup(&mut self);

    fn snapshot_loops(&self) -> Vec<LoopSnapshot>;

    fn restore_snapshot(&mut self, snapshot: &Snapshot) -> Result<(), String>;
}

/// `n` in decimal with leading zeros to at least `width` digits.
pub open spec fn zero_padded(n: nat, width: nat) -> Seq<char> {
    let d = decimal_nat(n);
    if d.len() >= width {
        d
    } else {
        Seq::new((width - d.len()) as nat, |_i: int| '0') + d
    }
}

/// The name of the output stream written under `sequence`.
pub open spec fn stream_file_name(sequence: nat) -> Seq<char> {
    "freewheeling-"@ + zero_padded(sequence, 4)
}

/// The name of the output stream written under `sequence`:
/// `freewheeling-` and the sequence with at least four digits.
pub fn stream_name_for(sequence: u64) -> (r: String)
    ensures
        r@ == stream_file_name(sequence as nat),
{
    let mut digits = String::new();
    push_decimal_u64(&mut digits, sequence);
    let len = digits.as_str().unicode_len();
    let mut r = string_from("freewheeling-");
    let ghost head = r@;
    let mut k: usize = len;
    while k < 4
        invariant
            len <= k <= 4 || (len > 4 && k == len),
            len == decimal_nat(sequence as nat).len(),
            digits@ == decimal_nat(sequence as nat),
            r@ == head + Seq::new((k - len) as nat, |_i: int| '0'),
        decreases 4 - k,
    {
        push_char(&mut r, '0');
        assert(r@ =~= head + Seq::new((k + 1 - len) as nat, |_i: int| '0'));
        k = k + 1;
    }
    push_str(&mut r, digits.as_str());
    proof {
        if len >= 4 {
            assert(r@ =~= head + decimal_nat(sequence as nat));
        } else {
            assert(r@ =~= head + (Seq::new((4 - len) as nat, |_i: int| '0') + decimal_nat(sequence as nat)));
        }
    }
    r
}

/// The core of a session: set up, run until the session ends, write the
/// output stream on request, keep snapshots, and shut down once.
pub struct Core<S: CoreServices> {
    services: S,
    running: bool,
    setup_complete: bool,
    write_sequence: u64,
    stream_name: String,
    snapshots: BTreeMap<usize, Snapshot>,
}

impl<S: CoreServices> Core<S> {
    /// The application's services.
    pub closed spec fn services_value(self) -> S {
        self.services
    }

    /// The session loop runs.
    pub closed spec fn running_flag(self) -> bool {
        self.running
    }

    /// Setup completed and no shutdown since.
    pub closed spec fn is_set_up(self) -> bool {
        self.setup_complete
    }

    /// The sequence number of the next output stream.
    pub closed spec fn sequence(self) -> u64 {
        self.write_sequence
    }

    /// The name of the stream being written, empty when none is.
    pub closed spec fn stream_text(self) -> Seq<char> {
        self.stream_name@
    }

    /// The snapshots by index.
    pub closed spec fn snapshot_map(self) -> Map<usize, Snapshot> {
        self.snapshots@
    }

    /// A core that is not set up, over `services`.
    pub fn new(services: S) -> (c: Self)
        ensures
            c.services_value() == services,
            !c.running_flag(),
            !c.is_set_up(),
            c.sequence() == 0,
            c.stream_text() == Seq::<char>::empty(),
            c.snapshot_map() == Map::<usize, Snapshot>::empty(),
    {
        Core {
            services,
            running: false,
            setup_complete: false,
            write_sequence: 0,
            stream_name: String::new(),
            snapshots: BTreeMap::new(),
        }
    }

    pub fn is_running(&self) -> (r: bool)
        ensures
            r == self.running_flag(),
    {
        self.running
    }

    pub fn stream_name(&self) -> (r: &str)
        ensures
            r@ == self.stream_text(),
    {
        self.stream_name.as_str()
    }

    pub fn services(&self) -> (r: &S)
        ensures
            *r == self.services_value(),
    {
        &self.services
    }

    pub fn services_mut(&mut self) -> (r: &mut S)
        ensures
            *r == old(self).services_value(),
            final(self).services_value() == *final(r),
            final(self).running_flag() == old(self).running_flag(),
            final(self).is_set_up() == old(self).is_set_up(),
            final(self).sequence() == old(self).sequence(),
            final(self).stream_text() == old(self).stream_text(),
            final(self).snapshot_map() == old(self).snapshot_map(),
    {
        &mut self.services
    }

    /// Sets the services up; a failure is rolled back and reported.
    pub fn setup(&mut self) -> (r: Result<(), String>)
        ensures
            final(self).is_set_up() == (r is Ok || old(self).is_set_up()),
            final(self).running_flag() == old(self).running_flag(),
            final(self).sequence() == old(self).sequence(),
            final(self).stream_text() == old(self).stream_text(),
            final(self).snapshot_map() == old(self).snapshot_map(),
    {
        match self.services.setup() {
            Ok(()) => {},
            Err(e) => {
                self.services.rollback_setup();
                return Err(e);
            },
        }
        self.setup_complete = true;
        Ok(())
    }

    /// The sequence number of the next output stream.
    pub fn write_sequence(&self) -> (r: u64)
        ensures
            r == self.sequence(),
    {
        self.write_sequence
    }

    /// Begins a session (the first part of running one): refuses a core
    /// that is not set up; marks it running and starts the session and the
    /// interfaces.  The caller then hands each polled event to
    /// `handle_event` while the core runs, and shuts it down.
    pub fn start(&mut self) -> (r: Result<(), String>)
        ensures
            !old(self).is_set_up() ==> (r matches Err(e) && e@ == "core is not set up"@) && *final(self)
                == *old(self),
            old(self).is_set_up() ==> final(self).running_flag(),
            final(self).is_set_up() == old(self).is_set_up(),
            final(self).sequence() == old(self).sequence(),
            final(self).stream_text() == old(self).stream_text(),
            final(self).snapshot_map() == old(self).snapshot_map(),
    {
        if !self.setup_complete {
            return Err(string_from("core is not set up"));
        }
        self.running = true;
        match self.services.start_session() {
            Ok(()) => {},
            Err(e) => {
                return Err(e);
            },
        }
        self.services.start_interfaces()
    }

    /// Handles one event: starting a session is the services' work, an
    /// exit ends the session, a toggle starts or stops the output stream.
    pub fn handle_event(&mut self, event: CoreEvent) -> (r: Result<(), String>)
        requires
            old(self).sequence() < u64::MAX,
        ensures
            event == CoreEvent::ExitSession ==> r is Ok && !final(self).running_flag() && final(self).services_value() == old(self).services_value(),
            event != CoreEvent::ExitSession ==> final(self).running_flag() == old(self).running_flag(),
            event != CoreEvent::ToggleDiskOutput ==> final(self).sequence() == old(self).sequence()
                && final(self).stream_text() == old(self).stream_text(),
            event == CoreEvent::ToggleDiskOutput ==> toggled(*old(self), *final(self), r is Ok),
            final(self).is_set_up() == old(self).is_set_up(),
            final(self).snapshot_map() == old(self).snapshot_map(),
    {
        match event {
            CoreEvent::StartSession => self.services.start_session(),
            CoreEvent::ExitSession => {
                self.running = false;
                Ok(())
            },
            CoreEvent::ToggleDiskOutput => self.toggle_disk_output(),
        }
    }

    /// Starts writing the output stream, named by the sequence number, or
    /// stops it and moves on to the next number.  Which one the services'
    /// stream state decides.
    pub fn toggle_disk_output(&mut self) -> (r: Result<(), String>)
        requires
            old(self).sequence() < u64::MAX,
        ensures
            toggled(*old(self), *final(self), r is Ok),
            final(self).running_flag() == old(self).running_flag(),
            final(self).is_set_up() == old(self).is_set_up(),
            final(self).snapshot_map() == old(self).snapshot_map(),
    {
        let writing = match self.services.stream_state() {
            StreamState::Writing => true,
            StreamState::Stopped => false,
        };
        if writing {
            match self.services.set_streaming(false, self.write_sequence) {
                Ok(()) => {},
                Err(e) => {
                    return Err(e);
                },
            }
            self.stream_name = String::new();
            self.write_sequence = self.write_sequence + 1;
        } else {
            self.stream_name = stream_name_for(self.write_sequence);
            match self.services.set_streaming(true, self.write_sequence) {
                Ok(()) => {},
                Err(e) => {
                    return Err(e);
                },
            }
        }
        Ok(())
    }

    /// Takes a snapshot of the loops under `index`, replacing one there.
    pub fn create_snapshot(&mut self, index: usize, name: &str)
        ensures
            final(self).snapshot_map().dom() == old(self).snapshot_map().dom().insert(index),
            final(self).snapshot_map()[index].name@ == name@,
            forall|k: usize|
                k != index && old(self).snapshot_map().contains_key(k) ==> #[trigger] final(self).snapshot_map()[k] == old(self).snapshot_map()[k],
            final(self).services_value() == old(self).services_value(),
            final(self).running_flag() == old(self).running_flag(),
            final(self).is_set_up() == old(self).is_set_up(),
            final(self).sequence() == old(self).sequence(),
            final(self).stream_text() == old(self).stream_text(),
    {
        let loops = self.services.snapshot_loops();
        let snapshot = Snapshot { name: string_from(name), loops };
        self.snapshots.insert(index, snapshot);
    }

    /// Brings snapshot `index` back; one that does not exist is refused.
    pub fn trigger_snapshot(&mut self, index: usize) -> (r: Result<(), String>)
        ensures
            !old(self).snapshot_map().contains_key(index) ==> (r matches Err(e) && e@
                == "snapshot does not exist"@) && *final(self) == *old(self),
            final(self).snapshot_map() == old(self).snapshot_map(),
            final(self).running_flag() == old(self).running_flag(),
            final(self).is_set_up() == old(self).is_set_up(),
            final(self).sequence() == old(self).sequence(),
            final(self).stream_text() == old(self).stream_text(),
    {
        match self.snapshots.get(&index) {
            Some(s) => self.services.restore_snapshot(s),
            None => Err(string_from("snapshot does not exist")),
        }
    }

    /// Snapshot `index`, if there is one.
    pub fn snapshot(&self, index: usize) -> (r: Option<&Snapshot>)
        ensures
            r == (if self.snapshot_map().contains_key(index) {
                Some(&self.snapshot_map()[index])
            } else {
                None
            }),
    {
        self.snapshots.get(&index)
    }

    /// The state of the output stream and the bytes written, as the
    /// services report them.
    pub fn stream_stats(&self) -> (StreamState, u64) {
        (self.services.stream_state(), self.services.stream_bytes())
    }

    /// Closes video, input, MIDI and audio and shuts the services down,
    /// once: a core that is not set up is left as it is.
    pub fn shutdown(&mut self)
        ensures
            !old(self).is_set_up() ==> *final(self) == *old(self),
            old(self).is_set_up() ==> !final(self).running_flag() && !final(self).is_set_up(),
            final(self).sequence() == old(self).sequence(),
            final(self).stream_text() == old(self).stream_text(),
            final(self).snapshot_map() == old(self).snapshot_map(),
    {
        if !self.setup_complete {
            return;
        }
        self.running = false;
        self.services.close_video();
        self.services.close_sdl();
        self.services.close_midi();
        self.services.close_audio();
        self.services.shutdown();
        self.setup_complete = false;
    }
}

/// What a toggle of the output stream did: stopped the stream (name
/// cleared, next sequence number), started one (named by the sequence
/// number), or, when the services refused, left the number as it was.
pub open spec fn toggled<S: CoreServices>(before: Core<S>, after: Core<S>, ok: bool) -> bool {
    ||| after.sequence() == before.sequence() + 1 && after.stream_text() == Seq::<char>::empty() && ok
    ||| after.sequence() == before.sequence() && after.stream_text() == stream_file_name(before.sequence() as nat)
    ||| after.sequence() == before.sequence() && after.stream_text() == before.stream_text() && !ok
}

} // verus!
