//! The application's glue: turning platform input into core events, and
//! the holder of the configuration, startup and component parts.

use vstd::prelude::*;
use crate::core_state::{CoreEvent, CoreServices, LoopSnapshot, Snapshot, StreamState};
use crate::startup::{StartupConfig, StartupServices, setup, setup_phases};
use crate::text::{push_str, string_from};

verus! {

/// The parts of the application that a platform supplies: audio, MIDI,
/// video, input and the loops.  Each must do the work it is asked for.
pub trait Components {
    fn start_session(&mut self) -> Result<(), String>;

    fn start_interfaces(&mut self) -> Result<(), String>;

    fn next_event(&mut self) -> Result<Option<CoreEvent>, String>;

    fn set_streaming(&mut self, enabled: bool, sequence: u64) -> Result<(), String>;

    fn stream_state(&self) -> StreamState;

    fn stream_bytes(&self) -> u64;

    fn close_video(&mut self);

    fn close_sdl(&mut self);

    fn close_midi(&mut self);

    fn close_audio(&mut self);

    fn shutdown(&mut self);

    fn snapshot_loops(&self) -> Vec<LoopSnapshot>;

    fn restore_snapshot(&mut self, snapshot: &Snapshot) -> Result<(), String>;
}

/// The platform input that the core reads: a request to quit, or anything
/// else.
#[derive(Clone, Copy, Debug, PartialEq, Eq, Structural)]
pub enum InputEvent {
    Quit,
    Other,
}

/// The core event that platform input stands for: quitting ends the
/// session; other input is none of the core's business.
pub open spec fn core_event_spec(event: InputEvent) -> Option<CoreEvent> {
    match event {
        InputEvent::Quit => Some(CoreEvent::ExitSession),
        InputEvent::Other => None,
    }
}

/// `core_event_spec`, computed.
pub fn core_event(event: InputEvent) -> (r: Option<CoreEvent>)
    ensures
        r == core_event_spec(event),
{
    match event {
        InputEvent::Quit => Some(CoreEvent::ExitSession),
        InputEvent::Other => None,
    }
}

/// A source of platform input, read one event at a time (`None` when
/// nothing is waiting).
pub trait InputPoll {
    fn poll(&mut self) -> Option<InputEvent>;
}

/// Core events read from the platform's input.
pub struct SdlEvents<B: InputPoll> {
    pub io: B,
}

impl<B: InputPoll> SdlEvents<B> {
    pub fn new(io: B) -> (r: Self)
        ensures
            r.io == io,
    {
        SdlEvents { io }
    }

    /// The next waiting input, as a core event: a request to quit ends the
    /// session; nothing waiting, or other input, gives `None`.
    pub fn poll(&mut self) -> (r: Option<CoreEvent>)
        ensures
            r == None::<CoreEvent> || r == Some(CoreEvent::ExitSession),
    {
        match self.io.poll() {
            Some(event) => core_event(event),
            None => None,
        }
    }
}

/// The configuration, the startup services and the components of the
/// application, with the numbers of inputs and of remembered recordings.
pub struct ApplicationServices<C, S, P> {
    pub config: C,
    pub startup: S,
    pub components: P,
    pub inputs: usize,
    pub last_records: usize,
    pub startup_active: bool,
}

impl<C, S, P> ApplicationServices<C, S, P> {
    pub fn new(config: C, startup: S, components: P, inputs: usize, last_records: usize) -> (a: Self)
        ensures
            a.config == config,
            a.startup == startup,
            a.components == components,
            a.inputs == inputs,
            a.last_records == last_records,
            !a.startup_active,
    {
        ApplicationServices { config, startup, components, inputs, last_records, startup_active: false }
    }

    pub fn config(&self) -> (r: &C)
        ensures
            *r == self.config,
    {
        &self.config
    }

    pub fn config_mut(&mut self) -> (r: &mut C)
        ensures
            *r == old(self).config,
            final(self).config == *final(r),
            final(self).startup == old(self).startup,
            final(self).components == old(self).components,
    {
        &mut self.config
    }

    pub fn startup(&self) -> (r: &S)
        ensures
            *r == self.startup,
    {
        &self.startup
    }

    pub fn startup_mut(&mut self) -> (r: &mut S)
        ensures
            *r == old(self).startup,
            final(self).startup == *final(r),
            final(self).config == old(self).config,
            final(self).components == old(self).components,
    {
        &mut self.startup
    }

    pub fn components(&self) -> (r: &P)
        ensures
            *r == self.components,
    {
        &self.components
    }

    pub fn components_mut(&mut self) -> (r: &mut P)
        ensures
            *r == old(self).components,
            final(self).components == *final(r),
            final(self).config == old(self).config,
            final(self).startup == old(self).startup,
    {
        &mut self.components
    }
}


/// The error of a failed startup: the step and what it reported.
pub open spec fn startup_error_text(phase: Seq<char>, message: Seq<char>) -> Seq<char> {
    "startup "@ + phase + ": "@ + message
}

impl<C: StartupConfig, S: StartupServices, P: Components> ApplicationServices<C, S, P> {
    /// Runs the startup steps; a failed one (already rolled back by the
    /// steps) is reported with its step's name.
    pub fn run_setup(&mut self) -> (r: Result<(), String>)
        ensures
            final(self).startup_active == (r is Ok),
            r matches Err(e) ==> exists|phase: Seq<char>, message: Seq<char>|
                setup_phases().contains(phase) && e@ == #[trigger] startup_error_text(phase, message),
            final(self).inputs == old(self).inputs,
            final(self).last_records == old(self).last_records,
            final(self).components == old(self).components,
    {
        self.startup_active = true;
        match setup(&mut self.config, &mut self.startup, self.inputs, self.last_records) {
            Ok(()) => Ok(()),
            Err(e) => {
                self.startup_active = false;
                let mut m = string_from("startup ");
                push_str(&mut m, e.phase);
                push_str(&mut m, ": ");
                push_str(&mut m, e.message.as_str());
                assert(m@ == startup_error_text(e.phase@, e.message@));
                Err(m)
            },
        }
    }

    /// Rolls the startup back once: only while it is active.
    pub fn rollback_once(&mut self)
        ensures
            !final(self).startup_active,
            !old(self).startup_active ==> *final(self) == *old(self),
            final(self).components == old(self).components,
            final(self).config == old(self).config,
            final(self).inputs == old(self).inputs,
            final(self).last_records == old(self).last_records,
    {
        if self.startup_active {
            self.startup.rollback_setup();
            self.startup_active = false;
        }
    }
}

impl<C: StartupConfig, S: StartupServices, P: Components> CoreServices for ApplicationServices<C, S, P> {
    fn setup(&mut self) -> Result<(), String> {
        self.run_setup()
    }

    fn start_session(&mut self) -> Result<(), String> {
        self.components.start_session()
    }

    fn start_interfaces(&mut self) -> Result<(), String> {
        self.components.start_interfaces()
    }

    fn poll_event(&mut self) -> Result<Option<CoreEvent>, String> {
        self.components.next_event()
    }

    fn set_streaming(&mut self, enabled: bool, sequence: u64) -> Result<(), String> {
        self.components.set_streaming(enabled, sequence)
    }

    fn stream_state(&self) -> StreamState {
        self.components.stream_state()
    }

    fn stream_bytes(&self) -> u64 {
        self.components.stream_bytes()
    }

    fn close_video(&mut self) {
        self.components.close_video()
    }

    fn close_sdl(&mut self) {
        self.components.close_sdl()
    }

    fn close_midi(&mut self) {
        self.components.close_midi()
    }

    fn close_audio(&mut self) {
        self.components.close_audio()
    }

    /// Shuts the components down, then rolls back a startup that is still
    /// active; the configuration stays as it is.
    fn shutdown(&mut self)
        ensures
            !final(self).startup_active,
            !old(self).startup_active ==> final(self).startup == old(self).startup,
            final(self).config == old(self).config,
            final(self).inputs == old(self).inputs,
            final(self).last_records == old(self).last_records,
    {
        self.components.shutdown();
        self.rollback_once();
    }

    fn rollback_setup(&mut self) {
        self.rollback_once();
    }

    fn snapshot_loops(&self) -> Vec<LoopSnapshot> {
        self.components.snapshot_loops()
    }

    fn restore_snapshot(&mut self, snapshot: &Snapshot) -> Result<(), String> {
        self.components.restore_snapshot(snapshot)
    }
}

} // verus!
