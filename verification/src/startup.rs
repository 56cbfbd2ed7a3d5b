//! Starting the application: the order of the startup steps, rolling
//! back on the first failure, and the variables registered at startup.

use vstd::prelude::*;
use crate::text::{push_str, push_decimal_u64, string_from, decimal_nat};

verus! {

pub const BROWSE_LOOP: i32 = 0;

pub const BROWSE_SCENE: i32 = 1;

pub const BROWSE_LOOP_TRAY: i32 = 2;

pub const BROWSE_SCENE_TRAY: i32 = 3;

pub const BROWSE_PATCH: i32 = 4;

/// The system variables declared at startup, in declaration order.
pub open spec fn system_variable_names() -> Seq<Seq<char>> {
    seq!["SYSTEM_midi_transpose"@, "SYSTEM_master_in_volume"@, "SYSTEM_master_out_volume"@, "SYSTEM_cur_pitchbend"@, "SYSTEM_bender_tune"@, "SYSTEM_cur_limiter_gain"@, "SYSTEM_audio_cpu_load"@, "SYSTEM_sync_active"@, "SYSTEM_sync_transmit"@, "SYSTEM_midisync_transmit"@, "SYSTEM_fluidsynth_enabled"@, "SYSTEM_num_midi_outs"@, "SYSTEM_num_help_pages"@, "SYSTEM_num_loops_in_map"@, "SYSTEM_num_recording_loops_in_map"@, "SYSTEM_num_patchbanks"@, "SYSTEM_cur_patchbank_tag"@, "SYSTEM_num_switchable_interfaces"@, "SYSTEM_cur_switchable_interface"@, "SYSTEM_snapshot_page_firstidx"@]
}

/// The system variables that follow live runtime state.
pub open spec fn live_system_variable_names() -> Seq<Seq<char>> {
    seq!["SYSTEM_num_midi_outs"@, "SYSTEM_midi_transpose"@, "SYSTEM_master_in_volume"@, "SYSTEM_master_out_volume"@, "SYSTEM_cur_pitchbend"@, "SYSTEM_bender_tune"@, "SYSTEM_audio_cpu_load"@, "SYSTEM_sync_active"@, "SYSTEM_sync_transmit"@, "SYSTEM_midisync_transmit"@, "SYSTEM_fluidsynth_enabled"@, "SYSTEM_num_help_pages"@, "SYSTEM_num_loops_in_map"@, "SYSTEM_num_recording_loops_in_map"@, "SYSTEM_num_patchbanks"@, "SYSTEM_cur_patchbank_tag"@, "SYSTEM_num_switchable_interfaces"@, "SYSTEM_cur_switchable_interface"@, "SYSTEM_snapshot_page_firstidx"@, "SYSTEM_cur_limiter_gain"@]
}

/// The system variables declared at startup.
pub fn startup_system_variables() -> (r: Vec<&'static str>)
    ensures
        r@.map_values(|s: &str| s@) == system_variable_names(),
{
    let mut r: Vec<&'static str> = Vec::new();
    r.push("SYSTEM_midi_transpose");
    r.push("SYSTEM_master_in_volume");
    r.push("SYSTEM_master_out_volume");
    r.push("SYSTEM_cur_pitchbend");
    r.push("SYSTEM_bender_tune");
    r.push("SYSTEM_cur_limiter_gain");
    r.push("SYSTEM_audio_cpu_load");
    r.push("SYSTEM_sync_active");
    r.push("SYSTEM_sync_transmit");
    r.push("SYSTEM_midisync_transmit");
    r.push("SYSTEM_fluidsynth_enabled");
    r.push("SYSTEM_num_midi_outs");
    r.push("SYSTEM_num_help_pages");
    r.push("SYSTEM_num_loops_in_map");
    r.push("SYSTEM_num_recording_loops_in_map");
    r.push("SYSTEM_num_patchbanks");
    r.push("SYSTEM_cur_patchbank_tag");
    r.push("SYSTEM_num_switchable_interfaces");
    r.push("SYSTEM_cur_switchable_interface");
    r.push("SYSTEM_snapshot_page_firstidx");
    assert(r@.map_values(|s: &str| s@) =~= system_variable_names());
    r
}

/// The system variables that follow live runtime state.
pub fn live_system_variables() -> (r: Vec<&'static str>)
    ensures
        r@.map_values(|s: &str| s@) == live_system_variable_names(),
{
    let mut r: Vec<&'static str> = Vec::new();
    r.push("SYSTEM_num_midi_outs");
    r.push("SYSTEM_midi_transpose");
    r.push("SYSTEM_master_in_volume");
    r.push("SYSTEM_master_out_volume");
    r.push("SYSTEM_cur_pitchbend");
    r.push("SYSTEM_bender_tune");
    r.push("SYSTEM_audio_cpu_load");
    r.push("SYSTEM_sync_active");
    r.push("SYSTEM_sync_transmit");
    r.push("SYSTEM_midisync_transmit");
    r.push("SYSTEM_fluidsynth_enabled");
    r.push("SYSTEM_num_help_pages");
    r.push("SYSTEM_num_loops_in_map");
    r.push("SYSTEM_num_recording_loops_in_map");
    r.push("SYSTEM_num_patchbanks");
    r.push("SYSTEM_cur_patchbank_tag");
    r.push("SYSTEM_num_switchable_interfaces");
    r.push("SYSTEM_cur_switchable_interface");
    r.push("SYSTEM_snapshot_page_firstidx");
    r.push("SYSTEM_cur_limiter_gain");
    assert(r@.map_values(|s: &str| s@) =~= live_system_variable_names());
    r
}

/// The three variables of input `n` (counting from 1).
pub open spec fn input_variable_names(n: nat) -> Seq<Seq<char>> {
    seq![
        "SYSTEM_in_"@ + decimal_nat(n) + "_volume"@,
        "SYSTEM_in_"@ + decimal_nat(n) + "_peak"@,
        "SYSTEM_in_"@ + decimal_nat(n) + "_record"@,
    ]
}

/// The variables of the first `inputs` inputs.
pub open spec fn inputs_variable_names(inputs: nat) -> Seq<Seq<char>>
    decreases inputs,
{
    if inputs == 0 {
        Seq::empty()
    } else {
        inputs_variable_names((inputs - 1) as nat) + input_variable_names(inputs)
    }
}

/// The variables that remember the last `count` recorded loops.
pub open spec fn last_record_variable_names(count: nat) -> Seq<Seq<char>>
    decreases count,
{
    if count == 0 {
        Seq::empty()
    } else {
        last_record_variable_names((count - 1) as nat).push(
            "SYSTEM_loopid_lastrecord_"@ + decimal_nat((count - 1) as nat),
        )
    }
}

/// Every variable declared empty at startup, in order.
pub open spec fn startup_variable_names_spec(inputs: nat, last_records: nat) -> Seq<Seq<char>> {
    system_variable_names() + inputs_variable_names(inputs) + last_record_variable_names(last_records)
}

fn named_with_number(prefix: &str, n: u64, suffix: &str) -> (r: String)
    ensures
        r@ == prefix@ + decimal_nat(n as nat) + suffix@,
{
    let mut s = string_from(prefix);
    push_decimal_u64(&mut s, n);
    push_str(&mut s, suffix);
    s
}

/// The names of the variables declared empty at startup.
pub fn startup_variable_names(inputs: usize, last_records: usize) -> (r: Vec<String>)
    ensures
        r@.map_values(|s: String| s@) == startup_variable_names_spec(inputs as nat, last_records as nat),
{
    let mut r: Vec<String> = Vec::new();
    let sys = startup_system_variables();
    let mut k: usize = 0;
    while k < sys.len()
        invariant
            k <= sys@.len(),
            sys@.map_values(|s: &str| s@) == system_variable_names(),
            r@.map_values(|s: String| s@) == system_variable_names().take(k as int),
        decreases sys@.len() - k,
    {
        let ghost before = r@;
        assert(sys@.map_values(|s: &str| s@)[k as int] == sys@[k as int]@);
        r.push(string_from(sys[k]));
        assert(r@.map_values(|s: String| s@) =~= before.map_values(|s: String| s@).push(sys@[k as int]@));
        assert(system_variable_names().take(k + 1) =~= system_variable_names().take(k as int).push(
            system_variable_names()[k as int],
        ));
        k = k + 1;
    }
    assert(system_variable_names().take(k as int) =~= system_variable_names());
    let mut i: usize = 0;
    while i < inputs
        invariant
            i <= inputs,
            r@.map_values(|s: String| s@) == system_variable_names() + inputs_variable_names(i as nat),
        decreases inputs - i,
    {
        let n = (i as u64) + 1;
        let ghost before = r@;
        let a = named_with_number("SYSTEM_in_", n, "_volume");
        let b = named_with_number("SYSTEM_in_", n, "_peak");
        let c = named_with_number("SYSTEM_in_", n, "_record");
        r.push(a);
        r.push(b);
        r.push(c);
        assert(r@.map_values(|s: String| s@) =~= before.map_values(|s: String| s@) + seq![a@, b@, c@]);
        assert(seq![a@, b@, c@] =~= input_variable_names((i + 1) as nat));
        assert(r@.map_values(|s: String| s@) =~= system_variable_names() + inputs_variable_names((i + 1) as nat));
        i = i + 1;
    }
    let mut j: usize = 0;
    while j < last_records
        invariant
            j <= last_records,
            i == inputs,
            r@.map_values(|s: String| s@) == system_variable_names() + inputs_variable_names(inputs as nat)
                + last_record_variable_names(j as nat),
        decreases last_records - j,
    {
        let ghost before = r@;
        let x = named_with_number("SYSTEM_loopid_lastrecord_", j as u64, "");
        proof {
            reveal_strlit("");
        }
        assert(x@ =~= "SYSTEM_loopid_lastrecord_"@ + decimal_nat(j as nat));
        r.push(x);
        assert(r@.map_values(|s: String| s@) =~= before.map_values(|s: String| s@).push(x@));
        assert(r@.map_values(|s: String| s@) =~= system_variable_names() + inputs_variable_names(inputs as nat)
            + last_record_variable_names((j + 1) as nat));
        j = j + 1;
    }
    r
}

/// What a fallible call answered: nothing, or an error's text.
pub open spec fn reply_view(r: Result<(), String>) -> Result<(), Seq<char>> {
    match r {
        Ok(()) => Ok(()),
        Err(e) => Err(e@),
    }
}

/// A call to the configuration during startup, as the configuration
/// records it: a constant, an empty variable, or one of its fallible
/// steps (by its index in `setup_phases`) with its answer.
pub enum ConfigRecord {
    Constant(Seq<char>, i32),
    Variable(Seq<char>),
    Step(usize, Result<(), Seq<char>>),
}

/// The configuration as startup needs it.  An implementation keeps, in
/// `config_calls`, the calls it was given, oldest first; each method
/// states the record it adds.
pub trait StartupConfig {
    /// The calls made so far, oldest first.
    closed spec fn config_calls(&self) -> Seq<ConfigRecord> {
        Seq::empty()
    }

    fn add_int_constant(&mut self, name: &str, value: i32)
        ensures
            final(self).config_calls() == old(self).config_calls().push(ConfigRecord::Constant(name@, value)),
    ;

    fn add_empty_variable(&mut self, name: &str)
        ensures
            final(self).config_calls() == old(self).config_calls().push(ConfigRecord::Variable(name@)),
    ;

    fn parse(&mut self) -> (r: Result<(), String>)
        ensures
            final(self).config_calls() == old(self).config_calls().push(ConfigRecord::Step(6, reply_view(r))),
    ;

    fn start(&mut self) -> (r: Result<(), String>)
        ensures
            final(self).config_calls() == old(self).config_calls().push(ConfigRecord::Step(19, reply_view(r))),
    ;

    /// Refreshes values backed by runtime objects once they are linked.
    fn refresh_system_variables(&mut self) -> (r: Result<(), String>)
        ensures
            final(self).config_calls() == old(self).config_calls().push(ConfigRecord::Step(18, reply_view(r))),
    ;
}

/// A call to the startup services, as the services record it: one of the
/// steps (by its index in `setup_phases`) with its answer, a rollback, or
/// a commit.
pub enum ServiceCall {
    Step(usize, Result<(), Seq<char>>),
    Rollback,
    Commit,
}

/// The platform services that startup brings up, in order.  An
/// implementation keeps, in `service_calls`, the calls it was given,
/// oldest first; each method states the record it adds.
pub trait StartupServices {
    /// The calls made so far, oldest first.
    closed spec fn service_calls(&self) -> Seq<ServiceCall> {
        Seq::empty()
    }

    fn lock_memory(&mut self) -> (r: Result<(), String>)
        ensures
            final(self).service_calls() == old(self).service_calls().push(ServiceCall::Step(0, reply_view(r))),
    ;

    fn init_rt_threads(&mut self) -> (r: Result<(), String>)
        ensures
            final(self).service_calls() == old(self).service_calls().push(ServiceCall::Step(1, reply_view(r))),
    ;

    fn register_main_thread(&mut self) -> (r: Result<(), String>)
        ensures
            final(self).service_calls() == old(self).service_calls().push(ServiceCall::Step(2, reply_view(r))),
    ;

    fn init_platform_threads(&mut self) -> (r: Result<(), String>)
        ensures
            final(self).service_calls() == old(self).service_calls().push(ServiceCall::Step(3, reply_view(r))),
    ;

    fn init_sdl(&mut self) -> (r: Result<(), String>)
        ensures
            final(self).service_calls() == old(self).service_calls().push(ServiceCall::Step(4, reply_view(r))),
    ;

    fn init_memory_manager(&mut self) -> (r: Result<(), String>)
        ensures
            final(self).service_calls() == old(self).service_calls().push(ServiceCall::Step(5, reply_view(r))),
    ;

    fn init_event_manager(&mut self) -> (r: Result<(), String>)
        ensures
            final(self).service_calls() == old(self).service_calls().push(ServiceCall::Step(7, reply_view(r))),
    ;

    fn activate_video(&mut self) -> (r: Result<(), String>)
        ensures
            final(self).service_calls() == old(self).service_calls().push(ServiceCall::Step(8, reply_view(r))),
    ;

    fn wait_for_video(&mut self) -> (r: Result<(), String>)
        ensures
            final(self).service_calls() == old(self).service_calls().push(ServiceCall::Step(9, reply_view(r))),
    ;

    fn init_audio(&mut self) -> (r: Result<(), String>)
        ensures
            final(self).service_calls() == old(self).service_calls().push(ServiceCall::Step(10, reply_view(r))),
    ;

    fn init_core_graph(&mut self) -> (r: Result<(), String>)
        ensures
            final(self).service_calls() == old(self).service_calls().push(ServiceCall::Step(11, reply_view(r))),
    ;

    fn init_synth_and_buffers(&mut self) -> (r: Result<(), String>)
        ensures
            final(self).service_calls() == old(self).service_calls().push(ServiceCall::Step(12, reply_view(r))),
    ;

    fn init_loop_and_scene_browsers(&mut self) -> (r: Result<(), String>)
        ensures
            final(self).service_calls() == old(self).service_calls().push(ServiceCall::Step(13, reply_view(r))),
    ;

    fn init_input_and_midi(&mut self) -> (r: Result<(), String>)
        ensures
            final(self).service_calls() == old(self).service_calls().push(ServiceCall::Step(14, reply_view(r))),
    ;

    fn init_osc_and_mixer(&mut self) -> (r: Result<(), String>)
        ensures
            final(self).service_calls() == old(self).service_calls().push(ServiceCall::Step(15, reply_view(r))),
    ;

    fn link_system_variables(&mut self) -> (r: Result<(), String>)
        ensures
            final(self).service_calls() == old(self).service_calls().push(ServiceCall::Step(16, reply_view(r))),
    ;

    fn refresh_system_variables(&mut self) -> (r: Result<(), String>)
        ensures
            final(self).service_calls() == old(self).service_calls().push(ServiceCall::Step(17, reply_view(r))),
    ;

    fn activate_signal_processing(&mut self) -> (r: Result<(), String>)
        ensures
            final(self).service_calls() == old(self).service_calls().push(ServiceCall::Step(20, reply_view(r))),
    ;

    fn init_streamers_and_finalize_rings(&mut self) -> (r: Result<(), String>)
        ensures
            final(self).service_calls() == old(self).service_calls().push(ServiceCall::Step(21, reply_view(r))),
    ;

    fn add_processing_elements(&mut self) -> (r: Result<(), String>)
        ensures
            final(self).service_calls() == old(self).service_calls().push(ServiceCall::Step(22, reply_view(r))),
    ;

    /// Takes back what the steps so far set up.
    fn rollback_setup(&mut self)
        ensures
            final(self).service_calls() == old(self).service_calls().push(ServiceCall::Rollback),
    ;

    /// Commits a completely initialised graph.
    fn commit_setup(&mut self)
        ensures
            final(self).service_calls() == old(self).service_calls().push(ServiceCall::Commit),
    ;
}

/// A failed startup step and why it failed.
#[derive(Debug)]
pub struct StartupError {
    pub phase: &'static str,
    pub message: String,
}

/// The startup steps, in the order they run.
pub open spec fn setup_phases() -> Seq<Seq<char>> {
    seq!["lock_memory"@, "init_rt_threads"@, "register_main_thread"@, "init_platform_threads"@, "init_sdl"@, "init_memory_manager"@, "parse_config"@, "init_event_manager"@, "activate_video"@, "wait_for_video"@, "init_audio"@, "init_core_graph"@, "init_synth_and_buffers"@, "init_loop_and_scene_browsers"@, "init_input_and_midi"@, "init_osc_and_mixer"@, "link_system_variables"@, "refresh_system_variables"@, "refresh_config_system_variables"@, "start_config"@, "activate_signal_processing"@, "init_streamers_and_finalize_rings"@, "add_processing_elements"@]
}

/// One registration with the configuration at startup: an integer
/// constant, or an empty variable.
#[derive(Debug)]
pub enum ConfigCall {
    IntConstant(&'static str, i32),
    EmptyVariable(String),
}

/// Plain value of a registration: the name, and the constant's value
/// (none for an empty variable).
pub open spec fn config_call_value(c: ConfigCall) -> (Seq<char>, Option<i32>) {
    match c {
        ConfigCall::IntConstant(n, v) => (n@, Some(v)),
        ConfigCall::EmptyVariable(n) => (n@, None),
    }
}

/// The registrations of startup, in order: the five browser constants,
/// then every startup variable (see `startup_variable_names_spec`).
pub open spec fn startup_config_plan(inputs: nat, last_records: nat) -> Seq<(Seq<char>, Option<i32>)> {
    seq![
        ("BROWSE_loop"@, Some(BROWSE_LOOP)),
        ("BROWSE_scene"@, Some(BROWSE_SCENE)),
        ("BROWSE_loop_tray"@, Some(BROWSE_LOOP_TRAY)),
        ("BROWSE_scene_tray"@, Some(BROWSE_SCENE_TRAY)),
        ("BROWSE_patch"@, Some(BROWSE_PATCH)),
    ] + startup_variable_names_spec(inputs, last_records).map_values(|n: Seq<char>| (n, None::<i32>))
}

/// The registrations of startup, in order.
pub fn startup_config_calls(inputs: usize, last_records: usize) -> (r: Vec<ConfigCall>)
    ensures
        r@.map_values(|c: ConfigCall| config_call_value(c)) == startup_config_plan(inputs as nat, last_records as nat),
{
    let mut r: Vec<ConfigCall> = Vec::new();
    r.push(ConfigCall::IntConstant("BROWSE_loop", BROWSE_LOOP));
    r.push(ConfigCall::IntConstant("BROWSE_scene", BROWSE_SCENE));
    r.push(ConfigCall::IntConstant("BROWSE_loop_tray", BROWSE_LOOP_TRAY));
    r.push(ConfigCall::IntConstant("BROWSE_scene_tray", BROWSE_SCENE_TRAY));
    r.push(ConfigCall::IntConstant("BROWSE_patch", BROWSE_PATCH));
    let ghost plan = startup_config_plan(inputs as nat, last_records as nat);
    assert(r@.map_values(|c: ConfigCall| config_call_value(c)) =~= plan.take(5));
    let names = startup_variable_names(inputs, last_records);
    let ghost all = names@.map_values(|s: String| s@);
    let n = names.len();
    let mut k: usize = 0;
    while k < n
        invariant
            k <= n,
            n == all.len(),
            n == names@.len(),
            all == names@.map_values(|s: String| s@),
            all == startup_variable_names_spec(inputs as nat, last_records as nat),
            plan == startup_config_plan(inputs as nat, last_records as nat),
            plan.len() == 5 + n,
            r@.map_values(|c: ConfigCall| config_call_value(c)) == plan.take(5 + k),
        decreases n - k,
    {
        let s = string_from(names[k].as_str());
        assert(s@ == all[k as int]);
        assert(plan[5 + k] == (all[k as int], None::<i32>));
        let ghost before = r@;
        r.push(ConfigCall::EmptyVariable(s));
        assert(r@.map_values(|c: ConfigCall| config_call_value(c)) =~= before.map_values(
            |c: ConfigCall| config_call_value(c),
        ).push((all[k as int], None::<i32>)));
        assert(r@.map_values(|c: ConfigCall| config_call_value(c)) =~= plan.take(5 + k + 1));
        k = k + 1;
    }
    assert(plan.take(5 + n) =~= plan);
    r
}

/// The record a registration leaves with the configuration.
pub open spec fn config_record(c: (Seq<char>, Option<i32>)) -> ConfigRecord {
    match c.1 {
        Some(v) => ConfigRecord::Constant(c.0, v),
        None => ConfigRecord::Variable(c.0),
    }
}

/// The records that the startup registrations leave, in order.
pub open spec fn startup_config_records(inputs: nat, last_records: nat) -> Seq<ConfigRecord> {
    startup_config_plan(inputs, last_records).map_values(|c: (Seq<char>, Option<i32>)| config_record(c))
}

/// Registers the browser constants and the startup variables with the
/// configuration: each of `startup_config_calls`, in order, and nothing
/// else.
pub fn install_startup_variables<C: StartupConfig>(cfg: &mut C, inputs: usize, last_records: usize)
    ensures
        final(cfg).config_calls() == old(cfg).config_calls() + startup_config_records(
            inputs as nat,
            last_records as nat,
        ),
{
    let calls = startup_config_calls(inputs, last_records);
    let ghost plan = startup_config_plan(inputs as nat, last_records as nat);
    let ghost recs = startup_config_records(inputs as nat, last_records as nat);
    let ghost start = cfg.config_calls();
    let mut k: usize = 0;
    assert(recs.take(0) =~= Seq::<ConfigRecord>::empty());
    assert(start + recs.take(0) =~= start);
    while k < calls.len()
        invariant
            k <= calls@.len(),
            calls@.map_values(|c: ConfigCall| config_call_value(c)) == plan,
            recs == plan.map_values(|c: (Seq<char>, Option<i32>)| config_record(c)),
            cfg.config_calls() == start + recs.take(k as int),
        decreases calls@.len() - k,
    {
        let ghost before = cfg.config_calls();
        assert(config_call_value(calls@[k as int]) == plan[k as int]);
        match &calls[k] {
            ConfigCall::IntConstant(name, value) => cfg.add_int_constant(name, *value),
            ConfigCall::EmptyVariable(name) => cfg.add_empty_variable(name.as_str()),
        }
        assert(recs[k as int] == config_record(plan[k as int]));
        assert(recs.take(k + 1) =~= recs.take(k as int).push(recs[k as int]));
        k = k + 1;
    }
    assert(recs.take(k as int) =~= recs);
}

/// The number of startup steps.
pub const SETUP_STEPS: usize = 23;

/// The name of startup step `k`.
pub fn phase_name(k: usize) -> (s: &'static str)
    requires
        k < SETUP_STEPS,
    ensures
        s@ == setup_phases()[k as int],
{
    match k {
        0 => {
            proof {
                assert(setup_phases()[0] == "lock_memory"@);
            }
            "lock_memory"
        },
        1 => {
            proof {
                assert(setup_phases()[1] == "init_rt_threads"@);
            }
            "init_rt_threads"
        },
        2 => {
            proof {
                assert(setup_phases()[2] == "register_main_thread"@);
            }
            "register_main_thread"
        },
        3 => {
            proof {
                assert(setup_phases()[3] == "init_platform_threads"@);
            }
            "init_platform_threads"
        },
        4 => {
            proof {
                assert(setup_phases()[4] == "init_sdl"@);
            }
            "init_sdl"
        },
        5 => {
            proof {
                assert(setup_phases()[5] == "init_memory_manager"@);
            }
            "init_memory_manager"
        },
        6 => {
            proof {
                assert(setup_phases()[6] == "parse_config"@);
            }
            "parse_config"
        },
        7 => {
            proof {
                assert(setup_phases()[7] == "init_event_manager"@);
            }
            "init_event_manager"
        },
        8 => {
            proof {
                assert(setup_phases()[8] == "activate_video"@);
            }
            "activate_video"
        },
        9 => {
            proof {
                assert(setup_phases()[9] == "wait_for_video"@);
            }
            "wait_for_video"
        },
        10 => {
            proof {
                assert(setup_phases()[10] == "init_audio"@);
            }
            "init_audio"
        },
        11 => {
            proof {
                assert(setup_phases()[11] == "init_core_graph"@);
            }
            "init_core_graph"
        },
        12 => {
            proof {
                assert(setup_phases()[12] == "init_synth_and_buffers"@);
            }
            "init_synth_and_buffers"
        },
        13 => {
            proof {
                assert(setup_phases()[13] == "init_loop_and_scene_browsers"@);
            }
            "init_loop_and_scene_browsers"
        },
        14 => {
            proof {
                assert(setup_phases()[14] == "init_input_and_midi"@);
            }
            "init_input_and_midi"
        },
        15 => {
            proof {
                assert(setup_phases()[15] == "init_osc_and_mixer"@);
            }
            "init_osc_and_mixer"
        },
        16 => {
            proof {
                assert(setup_phases()[16] == "link_system_variables"@);
            }
            "link_system_variables"
        },
        17 => {
            proof {
                assert(setup_phases()[17] == "refresh_system_variables"@);
            }
            "refresh_system_variables"
        },
        18 => {
            proof {
                assert(setup_phases()[18] == "refresh_config_system_variables"@);
            }
            "refresh_config_system_variables"
        },
        19 => {
            proof {
                assert(setup_phases()[19] == "start_config"@);
            }
            "start_config"
        },
        20 => {
            proof {
                assert(setup_phases()[20] == "activate_signal_processing"@);
            }
            "activate_signal_processing"
        },
        21 => {
            proof {
                assert(setup_phases()[21] == "init_streamers_and_finalize_rings"@);
            }
            "init_streamers_and_finalize_rings"
        },
        _ => {
            proof {
                assert(setup_phases()[22] == "add_processing_elements"@);
            }
            "add_processing_elements"
        },
    }
}

/// What startup does once step `k` has answered `reply`: go on to the
/// next step (`Ok(true)`), finish after the last one (`Ok(false)`), or
/// stop, reporting the step's name and the message.
pub fn setup_decision(k: usize, reply: Result<(), String>) -> (d: Result<bool, StartupError>)
    requires
        k < SETUP_STEPS,
    ensures
        match reply {
            Ok(()) => d == Ok::<bool, StartupError>(k + 1 < SETUP_STEPS),
            Err(m) => d matches Err(e) && e.phase@ == setup_phases()[k as int] && e.message@ == m@,
        },
{
    match reply {
        Ok(()) => Ok(k + 1 < SETUP_STEPS),
        Err(message) => Err(StartupError { phase: phase_name(k), message }),
    }
}

/// Whether startup step `k` is the configuration's (parsing, refreshing,
/// starting) rather than the services'.
pub open spec fn is_config_step(k: int) -> bool {
    k == 6 || k == 18 || k == 19
}

/// The records the services keep of the first `n` steps, given each
/// step's answer.
pub open spec fn service_trace(replies: Seq<Result<(), Seq<char>>>, n: nat) -> Seq<ServiceCall>
    decreases n,
{
    if n == 0 {
        Seq::empty()
    } else {
        service_trace(replies, (n - 1) as nat) + (if is_config_step(n - 1) {
            Seq::empty()
        } else {
            seq![ServiceCall::Step((n - 1) as usize, replies[n - 1])]
        })
    }
}

/// The records the configuration keeps of the first `n` steps: the
/// registrations `install` come just before parsing.
pub open spec fn config_trace(replies: Seq<Result<(), Seq<char>>>, n: nat, install: Seq<ConfigRecord>) -> Seq<
    ConfigRecord,
>
    decreases n,
{
    if n == 0 {
        Seq::empty()
    } else {
        config_trace(replies, (n - 1) as nat, install) + (if n - 1 == 6 {
            install.push(ConfigRecord::Step(6, replies[6]))
        } else if n - 1 == 18 || n - 1 == 19 {
            seq![ConfigRecord::Step((n - 1) as usize, replies[n - 1])]
        } else {
            Seq::empty()
        })
    }
}

/// A run of startup whose steps answered `replies`: every step but the
/// last succeeded; the steps ran in order and left their records; a
/// failing last step was followed by one rollback and is reported with
/// its name and message; otherwise all steps ran and one commit followed.
pub open spec fn setup_ran(
    replies: Seq<Result<(), Seq<char>>>,
    services_before: Seq<ServiceCall>,
    services_after: Seq<ServiceCall>,
    config_before: Seq<ConfigRecord>,
    config_after: Seq<ConfigRecord>,
    inputs: nat,
    last_records: nat,
    r: Result<(), StartupError>,
) -> bool {
    let m = replies.len();
    &&& 1 <= m <= 23
    &&& forall|i: int| 0 <= i < m - 1 ==> #[trigger] replies[i] is Ok
    &&& config_after == config_before + config_trace(replies, m, startup_config_records(inputs, last_records))
    &&& match replies[m - 1] {
        Ok(()) => m == 23 && r is Ok && services_after == services_before + service_trace(replies, m).push(
            ServiceCall::Commit,
        ),
        Err(msg) => (r matches Err(e) && e.phase@ == setup_phases()[m - 1] && e.message@ == msg)
            && services_after == services_before + service_trace(replies, m).push(ServiceCall::Rollback),
    }
}

/// The traces of a run read only the answers of the steps they cover.
proof fn lemma_traces_prefix(a: Seq<Result<(), Seq<char>>>, x: Result<(), Seq<char>>, n: nat, install: Seq<ConfigRecord>)
    requires
        n <= a.len(),
    ensures
        service_trace(a.push(x), n) == service_trace(a, n),
        config_trace(a.push(x), n, install) == config_trace(a, n, install),
    decreases n,
{
    if n > 0 {
        lemma_traces_prefix(a, x, (n - 1) as nat, install);
        assert(a.push(x)[n - 1] == a[n - 1]);
        if n > 6 {
            assert(a.push(x)[6] == a[6]);
        }
    }
}

/// Runs startup step `k` (the configuration's step first registers the
/// startup variables), leaving its records.
fn run_step<C: StartupConfig, S: StartupServices>(
    k: usize,
    cfg: &mut C,
    services: &mut S,
    inputs: usize,
    last_records: usize,
) -> (r: Result<(), String>)
    requires
        k < SETUP_STEPS,
    ensures
        !is_config_step(k as int) ==> final(services).service_calls() == old(services).service_calls().push(
            ServiceCall::Step(k, reply_view(r)),
        ) && final(cfg).config_calls() == old(cfg).config_calls(),
        k == 6 ==> final(cfg).config_calls() == old(cfg).config_calls() + startup_config_records(
            inputs as nat,
            last_records as nat,
        ).push(ConfigRecord::Step(6, reply_view(r))) && final(services).service_calls() == old(
            services,
        ).service_calls(),
        (k == 18 || k == 19) ==> final(cfg).config_calls() == old(cfg).config_calls().push(
            ConfigRecord::Step(k, reply_view(r)),
        ) && final(services).service_calls() == old(services).service_calls(),
{
    match k {
        0 => services.lock_memory(),
        1 => services.init_rt_threads(),
        2 => services.register_main_thread(),
        3 => services.init_platform_threads(),
        4 => services.init_sdl(),
        5 => services.init_memory_manager(),
        6 => {
            install_startup_variables(cfg, inputs, last_records);
            cfg.parse()
        },
        7 => services.init_event_manager(),
        8 => services.activate_video(),
        9 => services.wait_for_video(),
        10 => services.init_audio(),
        11 => services.init_core_graph(),
        12 => services.init_synth_and_buffers(),
        13 => services.init_loop_and_scene_browsers(),
        14 => services.init_input_and_midi(),
        15 => services.init_osc_and_mixer(),
        16 => services.link_system_variables(),
        17 => services.refresh_system_variables(),
        18 => cfg.refresh_system_variables(),
        19 => cfg.start(),
        20 => services.activate_signal_processing(),
        21 => services.init_streamers_and_finalize_rings(),
        _ => services.add_processing_elements(),
    }
}

/// Runs the startup steps in order, each decided on by `setup_decision`:
/// the first failing step stops startup, the services are rolled back
/// once and the step is reported with its message; after the last step
/// the setup is committed once.
pub fn setup<C: StartupConfig, S: StartupServices>(cfg: &mut C, services: &mut S, inputs: usize, last_records: usize) -> (r: Result<(), StartupError>)
    ensures
        r matches Err(e) ==> setup_phases().contains(e.phase@),
        exists|replies: Seq<Result<(), Seq<char>>>|
            #[trigger] setup_ran(
                replies,
                old(services).service_calls(),
                final(services).service_calls(),
                old(cfg).config_calls(),
                final(cfg).config_calls(),
                inputs as nat,
                last_records as nat,
                r,
            ),
{
    let ghost s0 = services.service_calls();
    let ghost c0 = cfg.config_calls();
    let ghost recs = startup_config_records(inputs as nat, last_records as nat);
    let ghost mut replies: Seq<Result<(), Seq<char>>> = Seq::empty();
    let mut k: usize = 0;
    assert(s0 + service_trace(replies, 0) =~= s0);
    assert(c0 + config_trace(replies, 0, recs) =~= c0);
    loop
        invariant
            k < SETUP_STEPS,
            replies.len() == k,
            forall|i: int| 0 <= i < k ==> #[trigger] replies[i] is Ok,
            services.service_calls() == s0 + service_trace(replies, k as nat),
            cfg.config_calls() == c0 + config_trace(replies, k as nat, recs),
            s0 == old(services).service_calls(),
            c0 == old(cfg).config_calls(),
            recs == startup_config_records(inputs as nat, last_records as nat),
        decreases SETUP_STEPS - k,
    {
        let reply = run_step(k, cfg, services, inputs, last_records);
        let ghost rv = reply_view(reply);
        let ghost next = replies.push(rv);
        proof {
            lemma_traces_prefix(replies, rv, k as nat, recs);
            assert(next[k as int] == rv);
            if k > 6 {
                assert(next[6] == replies[6]);
            }
            assert(services.service_calls() =~= s0 + service_trace(next, (k + 1) as nat));
            assert(cfg.config_calls() =~= c0 + config_trace(next, (k + 1) as nat, recs));
        }
        match setup_decision(k, reply) {
            Ok(true) => {
                proof {
                    replies = next;
                }
                k = k + 1;
            },
            Ok(false) => {
                services.commit_setup();
                proof {
                    assert(setup_ran(next, s0, services.service_calls(), c0, cfg.config_calls(), inputs as nat, last_records as nat, Ok(())));
                }
                return Ok(());
            },
            Err(e) => {
                services.rollback_setup();
                proof {
                    assert(setup_phases()[k as int] == e.phase@);
                    let rr: Result<(), StartupError> = Err(e);
                    assert(setup_ran(next, s0, services.service_calls(), c0, cfg.config_calls(), inputs as nat, last_records as nat, rr));
                }
                return Err(e);
            },
        }
    }
}

} // verus!
