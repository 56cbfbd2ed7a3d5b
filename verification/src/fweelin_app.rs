//! The application as one owner: the core over the application services,
//! and the bundle of components that a platform supplies.

use vstd::prelude::*;
use crate::app_services::{ApplicationServices, Components};
use crate::core_state::{Core, CoreEvent, LoopSnapshot, Snapshot, StreamState, toggled};
use crate::startup::{StartupConfig, StartupServices};

verus! {

/// The application's parts, each kept as its own value for inspection,
/// with the services that do the work.
pub struct FweelinComponents<Au, Mi, Vi, Br, Co, Pe> {
    pub audio: Au,
    pub midi: Mi,
    pub video: Vi,
    pub browser: Br,
    pub config: Co,
    pub persistence: Pe,
    pub services: Box<dyn Components>,
}

impl<Au, Mi, Vi, Br, Co, Pe> Components for FweelinComponents<Au, Mi, Vi, Br, Co, Pe> {
    fn start_session(&mut self) -> Result<(), String> {
        self.services.start_session()
    }

    fn start_interfaces(&mut self) -> Result<(), String> {
        self.services.start_interfaces()
    }

    fn next_event(&mut self) -> Result<Option<CoreEvent>, String> {
        self.services.next_event()
    }

    fn set_streaming(&mut self, enabled: bool, sequence: u64) -> Result<(), String> {
        self.services.set_streaming(enabled, sequence)
    }

    fn stream_state(&self) -> StreamState {
        self.services.stream_state()
    }

    fn stream_bytes(&self) -> u64 {
        self.services.stream_bytes()
    }

    fn close_video(&mut self) {
        self.services.close_video()
    }

    fn close_sdl(&mut self) {
        self.services.close_sdl()
    }

    fn close_midi(&mut self) {
        self.services.close_midi()
    }

    fn close_audio(&mut self) {
        self.services.close_audio()
    }

    fn shutdown(&mut self) {
        self.services.shutdown()
    }

    fn snapshot_loops(&self) -> Vec<LoopSnapshot> {
        self.services.snapshot_loops()
    }

    fn restore_snapshot(&mut self, snapshot: &Snapshot) -> Result<(), String> {
        self.services.restore_snapshot(snapshot)
    }
}

/// A bundle of components whose parts can be looked at one by one.
pub trait FweelinComponentSet: Components {
    type Audio;

    type Midi;

    type Video;

    type Browser;

    type Config;

    type Persistence;

    fn audio(&self) -> &Self::Audio;

    fn midi(&self) -> &Self::Midi;

    fn video(&self) -> &Self::Video;

    fn browser(&self) -> &Self::Browser;

    fn component_config(&self) -> &Self::Config;

    fn persistence(&self) -> &Self::Persistence;
}


/// The application: a core over the application services, owned and
/// driven through one surface.
pub struct Fweelin<C: StartupConfig, S: StartupServices, P: Components> {
    core: Core<ApplicationServices<C, S, P>>,
}

impl<C: StartupConfig, S: StartupServices, P: Components> Fweelin<C, S, P> {
    /// The core that the application drives.
    pub closed spec fn core_value(self) -> Core<ApplicationServices<C, S, P>> {
        self.core
    }

    /// A core that is not set up, over services made of the parts.
    pub fn new(config: C, startup: S, components: P, inputs: usize, last_records: usize) -> (f: Self)
        ensures
            f.core_value().services_value() == (ApplicationServices {
                config,
                startup,
                components,
                inputs,
                last_records,
                startup_active: false,
            }),
            !f.core_value().running_flag(),
            !f.core_value().is_set_up(),
            f.core_value().sequence() == 0,
            f.core_value().stream_text() == Seq::<char>::empty(),
            f.core_value().snapshot_map() == Map::<usize, Snapshot>::empty(),
    {
        Fweelin { core: Core::new(ApplicationServices::new(config, startup, components, inputs, last_records)) }
    }

    pub fn is_running(&self) -> (r: bool)
        ensures
            r == self.core_value().running_flag(),
    {
        self.core.is_running()
    }

    /// Sets the application up (see `Core::setup`).
    pub fn setup(&mut self) -> (r: Result<(), String>)
        ensures
            final(self).core_value().is_set_up() == (r is Ok || old(self).core_value().is_set_up()),
            final(self).core_value().running_flag() == old(self).core_value().running_flag(),
            final(self).core_value().sequence() == old(self).core_value().sequence(),
            final(self).core_value().stream_text() == old(self).core_value().stream_text(),
            final(self).core_value().snapshot_map() == old(self).core_value().snapshot_map(),
    {
        self.core.setup()
    }

    /// Begins a session (see `Core::start`).
    pub fn start(&mut self) -> (r: Result<(), String>)
        ensures
            !old(self).core_value().is_set_up() ==> (r matches Err(e) && e@ == "core is not set up"@)
                && *final(self) == *old(self),
            old(self).core_value().is_set_up() ==> final(self).core_value().running_flag(),
            final(self).core_value().is_set_up() == old(self).core_value().is_set_up(),
            final(self).core_value().sequence() == old(self).core_value().sequence(),
            final(self).core_value().stream_text() == old(self).core_value().stream_text(),
            final(self).core_value().snapshot_map() == old(self).core_value().snapshot_map(),
    {
        self.core.start()
    }

    /// The next event that the components report.
    pub fn poll_event(&mut self) -> (r: Result<Option<CoreEvent>, String>)
        ensures
            final(self).core_value().running_flag() == old(self).core_value().running_flag(),
            final(self).core_value().is_set_up() == old(self).core_value().is_set_up(),
            final(self).core_value().sequence() == old(self).core_value().sequence(),
            final(self).core_value().stream_text() == old(self).core_value().stream_text(),
            final(self).core_value().snapshot_map() == old(self).core_value().snapshot_map(),
    {
        self.core.services_mut().components_mut().next_event()
    }

    /// The sequence number of the next output stream.
    pub fn write_sequence(&self) -> (r: u64)
        ensures
            r == self.core_value().sequence(),
    {
        self.core.write_sequence()
    }

    /// Handles one event (see `Core::handle_event`).
    pub fn handle_event(&mut self, event: CoreEvent) -> (r: Result<(), String>)
        requires
            old(self).core_value().sequence() < u64::MAX,
        ensures
            event == CoreEvent::ExitSession ==> r is Ok && !final(self).core_value().running_flag(),
            event != CoreEvent::ExitSession ==> final(self).core_value().running_flag() == old(self).core_value().running_flag(),
            event != CoreEvent::ToggleDiskOutput ==> final(self).core_value().sequence() == old(self).core_value().sequence() && final(self).core_value().stream_text() == old(self).core_value().stream_text(),
            event == CoreEvent::ToggleDiskOutput ==> toggled(old(self).core_value(), final(self).core_value(), r is Ok),
            final(self).core_value().is_set_up() == old(self).core_value().is_set_up(),
            final(self).core_value().snapshot_map() == old(self).core_value().snapshot_map(),
    {
        self.core.handle_event(event)
    }

    /// Starts or stops the output stream (see `Core::toggle_disk_output`).
    pub fn toggle_disk_output(&mut self) -> (r: Result<(), String>)
        requires
            old(self).core_value().sequence() < u64::MAX,
        ensures
            toggled(old(self).core_value(), final(self).core_value(), r is Ok),
            final(self).core_value().running_flag() == old(self).core_value().running_flag(),
            final(self).core_value().is_set_up() == old(self).core_value().is_set_up(),
            final(self).core_value().snapshot_map() == old(self).core_value().snapshot_map(),
    {
        self.core.toggle_disk_output()
    }

    /// Stops the output stream if one is being written, the way a toggle
    /// does; otherwise does nothing.
    pub fn flush_stream_out_name(&mut self) -> (r: Result<(), String>)
        requires
            old(self).core_value().sequence() < u64::MAX,
        ensures
            *final(self) == *old(self) || toggled(old(self).core_value(), final(self).core_value(), r is Ok),
            final(self).core_value().running_flag() == old(self).core_value().running_flag(),
            final(self).core_value().is_set_up() == old(self).core_value().is_set_up(),
            final(self).core_value().snapshot_map() == old(self).core_value().snapshot_map(),
    {
        let writing = match self.core.stream_stats().0 {
            StreamState::Writing => true,
            StreamState::Stopped => false,
        };
        if writing {
            match self.toggle_disk_output() {
                Ok(()) => {},
                Err(e) => {
                    return Err(e);
                },
            }
        }
        Ok(())
    }

    pub fn stream_name(&self) -> (r: &str)
        ensures
            r@ == self.core_value().stream_text(),
    {
        self.core.stream_name()
    }

    pub fn stream_stats(&self) -> (StreamState, u64) {
        self.core.stream_stats()
    }

    /// Takes a snapshot (see `Core::create_snapshot`).
    pub fn create_snapshot(&mut self, index: usize, name: &str)
        ensures
            final(self).core_value().snapshot_map().dom() == old(self).core_value().snapshot_map().dom().insert(
                index,
            ),
            final(self).core_value().snapshot_map()[index].name@ == name@,
            forall|k: usize|
                k != index && old(self).core_value().snapshot_map().contains_key(k) ==> #[trigger] final(self).core_value().snapshot_map()[k] == old(self).core_value().snapshot_map()[k],
            final(self).core_value().services_value() == old(self).core_value().services_value(),
            final(self).core_value().running_flag() == old(self).core_value().running_flag(),
            final(self).core_value().is_set_up() == old(self).core_value().is_set_up(),
            final(self).core_value().sequence() == old(self).core_value().sequence(),
            final(self).core_value().stream_text() == old(self).core_value().stream_text(),
    {
        self.core.create_snapshot(index, name);
    }

    /// Brings a snapshot back (see `Core::trigger_snapshot`).
    pub fn trigger_snapshot(&mut self, index: usize) -> (r: Result<(), String>)
        ensures
            !old(self).core_value().snapshot_map().contains_key(index) ==> (r matches Err(e) && e@
                == "snapshot does not exist"@) && *final(self) == *old(self),
            final(self).core_value().snapshot_map() == old(self).core_value().snapshot_map(),
    {
        self.core.trigger_snapshot(index)
    }

    pub fn snapshot(&self, index: usize) -> (r: Option<&Snapshot>)
        ensures
            r == (if self.core_value().snapshot_map().contains_key(index) {
                Some(&self.core_value().snapshot_map()[index])
            } else {
                None
            }),
    {
        self.core.snapshot(index)
    }

    pub fn components(&self) -> (r: &P)
        ensures
            *r == self.core_value().services_value().components,
    {
        self.core.services().components()
    }

    pub fn components_mut(&mut self) -> (r: &mut P)
        ensures
            *r == old(self).core_value().services_value().components,
            final(self).core_value().services_value().components == *final(r),
            final(self).core_value().services_value().config == old(self).core_value().services_value().config,
            final(self).core_value().services_value().startup == old(self).core_value().services_value().startup,
            final(self).core_value().snapshot_map() == old(self).core_value().snapshot_map(),
    {
        self.core.services_mut().components_mut()
    }

    pub fn config(&self) -> (r: &C)
        ensures
            *r == self.core_value().services_value().config,
    {
        self.core.services().config()
    }

    pub fn config_mut(&mut self) -> (r: &mut C)
        ensures
            *r == old(self).core_value().services_value().config,
            final(self).core_value().services_value().config == *final(r),
            final(self).core_value().services_value().components == old(self).core_value().services_value().components,
            final(self).core_value().services_value().startup == old(self).core_value().services_value().startup,
            final(self).core_value().snapshot_map() == old(self).core_value().snapshot_map(),
    {
        self.core.services_mut().config_mut()
    }

    pub fn startup(&self) -> (r: &S)
        ensures
            *r == self.core_value().services_value().startup,
    {
        self.core.services().startup()
    }

    pub fn startup_mut(&mut self) -> (r: &mut S)
        ensures
            *r == old(self).core_value().services_value().startup,
            final(self).core_value().services_value().startup == *final(r),
            final(self).core_value().services_value().components == old(self).core_value().services_value().components,
            final(self).core_value().services_value().config == old(self).core_value().services_value().config,
            final(self).core_value().snapshot_map() == old(self).core_value().snapshot_map(),
    {
        self.core.services_mut().startup_mut()
    }

    /// The loops' state as the components report it.
    pub fn loop_state(&self) -> Vec<LoopSnapshot> {
        self.components().snapshot_loops()
    }

    /// Shuts the application down (see `Core::shutdown`).
    pub fn shutdown(&mut self)
        ensures
            !old(self).core_value().is_set_up() ==> *final(self) == *old(self),
            old(self).core_value().is_set_up() ==> !final(self).core_value().running_flag()
                && !final(self).core_value().is_set_up(),
            final(self).core_value().snapshot_map() == old(self).core_value().snapshot_map(),
    {
        self.core.shutdown();
    }
}

} // verus!
