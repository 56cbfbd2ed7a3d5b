use freewheeling::app_services::{ApplicationServices, Components};
use freewheeling::core_state::{
    stream_name_for, Core, CoreEvent, CoreServices, LoopSnapshot, LoopStatus, Snapshot, StreamState,
};
use freewheeling::startup::{StartupConfig, StartupServices};

struct Fake {
    state: StreamState,
    events: Vec<Option<CoreEvent>>,
    starts: usize,
    closes: usize,
    restored: Vec<String>,
    sequences: Vec<(bool, u64)>,
}

impl Fake {
    fn new(events: Vec<Option<CoreEvent>>) -> Self {
        Fake { state: StreamState::Stopped, events, starts: 0, closes: 0, restored: Vec::new(), sequences: Vec::new() }
    }
}

impl CoreServices for Fake {
    fn setup(&mut self) -> Result<(), String> {
        Ok(())
    }
    fn start_session(&mut self) -> Result<(), String> {
        self.starts += 1;
        Ok(())
    }
    fn start_interfaces(&mut self) -> Result<(), String> {
        Ok(())
    }
    fn poll_event(&mut self) -> Result<Option<CoreEvent>, String> {
        Ok(self.events.pop().unwrap_or(None))
    }
    fn set_streaming(&mut self, e: bool, sequence: u64) -> Result<(), String> {
        self.sequences.push((e, sequence));
        self.state = if e { StreamState::Writing } else { StreamState::Stopped };
        Ok(())
    }
    fn stream_state(&self) -> StreamState {
        self.state
    }
    fn stream_bytes(&self) -> u64 {
        7
    }
    fn close_video(&mut self) {}
    fn close_sdl(&mut self) {}
    fn close_midi(&mut self) {}
    fn close_audio(&mut self) {}
    fn shutdown(&mut self) {
        self.closes += 1
    }
    fn rollback_setup(&mut self) {}
    fn snapshot_loops(&self) -> Vec<LoopSnapshot> {
        vec![LoopSnapshot {
            loop_id: 3,
            status: LoopStatus::Playing,
            loop_volume_bits: 1.0f32.to_bits(),
            trigger_volume_bits: 0.5f32.to_bits(),
        }]
    }
    fn restore_snapshot(&mut self, s: &Snapshot) -> Result<(), String> {
        self.restored.push(s.name.clone());
        Ok(())
    }
}

/// Runs a session the way the application's main loop does.
fn run<S: CoreServices>(c: &mut Core<S>) -> Result<(), String> {
    c.start()?;
    while c.is_running() {
        match c.services_mut().poll_event()? {
            Some(event) => c.handle_event(event)?,
            None => break,
        }
    }
    c.shutdown();
    Ok(())
}

#[test]
fn snapshots_are_stateful() {
    let mut c = Core::new(Fake::new(vec![]));
    c.setup().unwrap();
    c.create_snapshot(2, "scene");
    assert_eq!(c.snapshot(2).unwrap().name, "scene");
}

#[test]
fn session_runs_until_exit_and_shuts_down_once() {
    let mut c = Core::new(Fake::new(vec![Some(CoreEvent::ExitSession)]));
    assert_eq!(c.start().unwrap_err(), "core is not set up");
    c.setup().unwrap();
    run(&mut c).unwrap();
    assert_eq!(c.services().starts, 1);
    assert_eq!(c.services().closes, 1);
    assert!(!c.is_running());
    c.shutdown();
    assert_eq!(c.services().closes, 1);
}

#[test]
fn toggling_disk_output_names_and_numbers_streams() {
    let mut c = Core::new(Fake::new(vec![]));
    c.toggle_disk_output().unwrap();
    assert_eq!(c.stream_name(), "freewheeling-0000");
    assert_eq!(c.stream_stats(), (StreamState::Writing, 7));
    c.toggle_disk_output().unwrap();
    assert_eq!(c.stream_name(), "");
    assert_eq!(c.write_sequence(), 1);
    c.handle_event(CoreEvent::ToggleDiskOutput).unwrap();
    assert_eq!(c.stream_name(), "freewheeling-0001");
    assert_eq!(c.services().sequences, vec![(true, 0), (false, 0), (true, 1)]);
    assert_eq!(stream_name_for(12345), "freewheeling-12345");
    assert_eq!(stream_name_for(42), "freewheeling-0042");
}

#[test]
fn missing_snapshots_are_refused_and_present_ones_restored() {
    let mut c = Core::new(Fake::new(vec![]));
    assert_eq!(c.trigger_snapshot(1).unwrap_err(), "snapshot does not exist");
    c.create_snapshot(1, "a");
    c.create_snapshot(1, "b");
    c.trigger_snapshot(1).unwrap();
    assert_eq!(c.services().restored, vec!["b".to_string()]);
    assert_eq!(c.snapshot(1).unwrap().loops[0].loop_id, 3);
    assert!(c.snapshot(0).is_none());
}

#[derive(Default)]
struct Config;

impl StartupConfig for Config {
    fn add_int_constant(&mut self, _: &str, _: i32) {}
    fn add_empty_variable(&mut self, _: &str) {}
    fn parse(&mut self) -> Result<(), String> {
        Ok(())
    }
    fn start(&mut self) -> Result<(), String> {
        Ok(())
    }
    fn refresh_system_variables(&mut self) -> Result<(), String> {
        Ok(())
    }
}

#[derive(Default)]
struct Startup {
    fail_audio: bool,
    rollbacks: usize,
}

impl StartupServices for Startup {
    fn lock_memory(&mut self) -> Result<(), String> { Ok(()) }
    fn init_rt_threads(&mut self) -> Result<(), String> { Ok(()) }
    fn register_main_thread(&mut self) -> Result<(), String> { Ok(()) }
    fn init_platform_threads(&mut self) -> Result<(), String> { Ok(()) }
    fn init_sdl(&mut self) -> Result<(), String> { Ok(()) }
    fn init_memory_manager(&mut self) -> Result<(), String> { Ok(()) }
    fn init_event_manager(&mut self) -> Result<(), String> { Ok(()) }
    fn activate_video(&mut self) -> Result<(), String> { Ok(()) }
    fn wait_for_video(&mut self) -> Result<(), String> { Ok(()) }
    fn init_audio(&mut self) -> Result<(), String> {
        if self.fail_audio { Err("no device".to_string()) } else { Ok(()) }
    }
    fn init_core_graph(&mut self) -> Result<(), String> { Ok(()) }
    fn init_synth_and_buffers(&mut self) -> Result<(), String> { Ok(()) }
    fn init_loop_and_scene_browsers(&mut self) -> Result<(), String> { Ok(()) }
    fn init_input_and_midi(&mut self) -> Result<(), String> { Ok(()) }
    fn init_osc_and_mixer(&mut self) -> Result<(), String> { Ok(()) }
    fn link_system_variables(&mut self) -> Result<(), String> { Ok(()) }
    fn activate_signal_processing(&mut self) -> Result<(), String> { Ok(()) }
    fn init_streamers_and_finalize_rings(&mut self) -> Result<(), String> { Ok(()) }
    fn add_processing_elements(&mut self) -> Result<(), String> { Ok(()) }
    fn refresh_system_variables(&mut self) -> Result<(), String> { Ok(()) }
    fn rollback_setup(&mut self) {
        self.rollbacks += 1;
    }
    fn commit_setup(&mut self) {}
}

struct TestComponents {
    events: Vec<Option<CoreEvent>>,
    state: StreamState,
    starts: usize,
    closes: usize,
}

impl TestComponents {
    fn new() -> Self {
        TestComponents { events: vec![Some(CoreEvent::ExitSession)], state: StreamState::Stopped, starts: 0, closes: 0 }
    }
}

impl Components for TestComponents {
    fn start_session(&mut self) -> Result<(), String> {
        self.starts += 1;
        Ok(())
    }
    fn start_interfaces(&mut self) -> Result<(), String> {
        Ok(())
    }
    fn next_event(&mut self) -> Result<Option<CoreEvent>, String> {
        Ok(self.events.pop().flatten())
    }
    fn set_streaming(&mut self, enabled: bool, _: u64) -> Result<(), String> {
        self.state = if enabled { StreamState::Writing } else { StreamState::Stopped };
        Ok(())
    }
    fn stream_state(&self) -> StreamState {
        self.state
    }
    fn stream_bytes(&self) -> u64 {
        12
    }
    fn close_video(&mut self) {}
    fn close_sdl(&mut self) {}
    fn close_midi(&mut self) {}
    fn close_audio(&mut self) {}
    fn shutdown(&mut self) {
        self.closes += 1;
    }
    fn snapshot_loops(&self) -> Vec<LoopSnapshot> {
        Vec::new()
    }
    fn restore_snapshot(&mut self, _: &Snapshot) -> Result<(), String> {
        Ok(())
    }
}

#[test]
fn application_session_reaches_components_and_rolls_back_once() {
    let services = ApplicationServices::new(Config, Startup::default(), TestComponents::new(), 0, 0);
    let mut core = Core::new(services);
    core.setup().unwrap();
    run(&mut core).unwrap();
    assert_eq!(core.services().components().starts, 1);
    assert_eq!(core.services().components().closes, 1);
    assert_eq!(core.services().startup().rollbacks, 1);
    assert_eq!(core.services().components().stream_bytes(), 12);
}

#[test]
fn failed_startup_names_its_step() {
    let startup = Startup { fail_audio: true, rollbacks: 0 };
    let services = ApplicationServices::new(Config, startup, TestComponents::new(), 0, 0);
    let mut core = Core::new(services);
    assert_eq!(core.setup().unwrap_err(), "startup init_audio: no device");
    assert_eq!(core.services().startup().rollbacks, 1);
    assert_eq!(core.start().unwrap_err(), "core is not set up");
}
