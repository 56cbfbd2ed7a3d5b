use freewheeling::acceptance::{parse_positive_u32, requested_format_from, RequestedFormat};
use freewheeling::audio_format::{
    best_channel_count, choose_buffer_frames, negotiate_format, CpalAudioOptions, StreamConfigRange,
};
use freewheeling::blocks::{BlockManager, ManagedChainStatus, MarkerPoints, TimeMarker};
use freewheeling::browser::{
    Browser, BrowserFile, BrowserFileSystem, BrowserItem, BrowserItemType, FileTime,
};
use freewheeling::event::Event;
use freewheeling::config_model::{parse_codec, parse_pair, positive_i32};
use freewheeling::core_dsp::{math_gcd, math_lcm};
use freewheeling::core_persistence::{decode_hash, encode_hash, loop_metadata_xml, split_filename, xml_escape};
use freewheeling::core_persistence_parse::parse_loop_metadata_xml;
use freewheeling::datatypes::{CoreDataType, UserVariable};
use freewheeling::dsp_profile::DspProfile;
use freewheeling::event::EventType;
use freewheeling::jack_ringbuffer::RingBuffer;
use freewheeling::md5::md5;
use freewheeling::mixer::{AlsaMixerBackend, HardwareMixerInterface};
use freewheeling::paths::{file_name, file_stem, paths_equal};
use freewheeling::stacktrace::{
    stacktrace_append_shell_quoted_5, stacktrace_build_debugger_command_13,
    stacktrace_build_nm_command_12, stacktrace_copy_symbol_name_10, stacktrace_format_symbol_entry_11,
    stacktrace_parse_nm_symbol_line_8, stacktrace_shell_quote_7,
};
use freewheeling::renamer::ItemRenamer;
use freewheeling::startup::{setup, startup_variable_names, StartupConfig, StartupServices};
use freewheeling::blocks::Codec;

fn c_text(buf: &[u8]) -> &[u8] {
    let end = buf.iter().position(|&b| b == 0).unwrap_or(buf.len());
    &buf[..end]
}

#[test]
fn ring_buffer_hands_bytes_back_in_write_order() {
    let mut rb = RingBuffer::create(8);
    assert_eq!(rb.write(b"abc", 3), 3);
    assert_eq!(rb.write(b"defg", 4), 4);
    let mut out = [0u8; 7];
    assert_eq!(rb.read(&mut out, 7), 7);
    assert_eq!(&out, b"abcdefg");
    assert_eq!(rb.read_space(), 0);
}

#[test]
fn ring_buffer_space_adds_up_to_capacity_less_one() {
    let mut rb = RingBuffer::create(6);
    for n in 0..5usize {
        assert_eq!(rb.read_space() + rb.write_space() + 1, 6);
        rb.write(&[1u8], 1);
        assert_eq!(rb.read_space(), n + 1);
    }
    assert_eq!(rb.write(b"x", 1), 0);
    let empty = RingBuffer::create(0);
    assert_eq!(empty.read_space(), 0);
    assert_eq!(empty.write_space(), 0);
}

#[test]
fn md5_of_empty_and_block_boundary_messages() {
    assert_eq!(encode_hash(&md5(b"")), "D41D8CD98F00B204E9800998ECF8427E");
    assert_eq!(
        encode_hash(&md5(b"The quick brown fox jumps over the lazy dog")),
        "9E107D9D372BB6826BD81D3542A419D6"
    );
    let fifty_six = [b'a'; 56];
    assert_eq!(encode_hash(&md5(&fifty_six)), "3B0C8AC703F828B04C6C197006D17218");
    assert_eq!(encode_hash(&md5(&[b'a'; 64])), "014842D480B571495A4A0363793F7367");
}

#[test]
fn hash_text_round_trips() {
    let hash = md5(b"loop");
    let text = encode_hash(&hash);
    assert_eq!(decode_hash(&text), Some(hash));
    assert_eq!(decode_hash("0123"), None);
    assert_eq!(decode_hash("ZZ23456789ABCDEF0123456789ABCDEF"), None);
}

#[test]
fn split_filename_reports_bad_names() {
    assert_eq!(split_filename("lib/x", 8), Err("invalid filename: lib/x".to_string()));
    assert_eq!(
        split_filename("lib/loop-0123-name.wav", 8),
        Err("invalid hash in filename: lib/loop-0123-name.wav".to_string())
    );
}

#[test]
fn loop_metadata_version_controls_smoothing() {
    assert!(!parse_loop_metadata_xml("<loop version=\"0\"/>").unwrap().smooth_end);
    let meta = parse_loop_metadata_xml("<loop version=\"1\" nbeats=\"4\" pulselen=\"12\"/>").unwrap();
    assert!(meta.smooth_end);
    assert_eq!(meta.nbeats, Some(4));
    assert_eq!(meta.pulse_length, Some(12));
    assert!(parse_loop_metadata_xml("<loop").is_err());
}

#[test]
fn loop_metadata_and_escaping_text() {
    assert_eq!(
        loop_metadata_xml(4, 12),
        "<?xml version=\"1.0\"?>\n<loop version=\"1\" nbeats=\"4\" pulselen=\"12\"/>\n"
    );
    assert_eq!(xml_escape("a<b>&\"c'"), "a&lt;b&gt;&amp;&quot;c'");
}

#[test]
fn gcd_and_lcm_of_small_numbers() {
    assert_eq!(math_gcd(12, 18), 6);
    assert_eq!(math_gcd(7, 0), 7);
    assert_eq!(math_lcm(4, 6), 12);
}

#[test]
fn event_names_round_trip() {
    for t in [
        EventType::InputKey,
        EventType::BrowserMoveToItem,
        EventType::SplitVariableMSBLSB,
        EventType::ExitSession,
    ] {
        assert_eq!(EventType::from_name(t.name()), Some(t));
    }
    assert_eq!(EventType::from_name("no-such-event"), None);
    assert_eq!(EventType::from_name("pulse-sync"), Some(EventType::PulseSync));
    assert!(EventType::ExitSession.is_slow());
    assert!(!EventType::InputKey.is_slow());
    let params = EventType::InputKey.parameters();
    assert_eq!(params.len(), 3);
    assert_eq!(params[1].name, "key");
    assert_eq!(params[1].max_index, 512);
}

struct Listing(Result<Vec<BrowserFile>, String>);

impl BrowserFileSystem for Listing {
    fn entries(&self, _directory: &str) -> Result<Vec<BrowserFile>, String> {
        self.0.clone()
    }
}

fn dated(name: &str, secs: i64) -> BrowserFile {
    BrowserFile { path: name.to_string(), modified: Some(FileTime::from_secs(secs)), is_file: true }
}

#[test]
fn scan_orders_newest_first_keeping_listing_order_for_ties() {
    let mut browser = Browser::new("lib", BrowserItemType::Scene);
    browser
        .scan_with(&Listing(Ok(vec![
            dated("lib/scene-aa-One.xml", 5),
            dated("lib/scene-bb-Two.xml", 9),
            dated("lib/scene-cc-Three.xml", 5),
            dated("lib/loop-dd-Four.wav", 7),
        ])))
        .unwrap();
    let names: Vec<&str> = browser.items.iter().map(|i| i.name.as_str()).collect();
    assert_eq!(names, ["Two", "One", "Three"]);
    assert_eq!(browser.current_index, Some(0));
}

#[test]
fn scan_failure_leaves_browser_empty_and_says_why() {
    let mut browser = Browser::new("missing", BrowserItemType::Loop);
    browser.add_item(BrowserItem::new("old", false, BrowserItemType::Loop), false);
    let err = browser.scan_with(&Listing(Err("no such directory".to_string()))).unwrap_err();
    assert_eq!(err, "Failed to read browser path 'missing': no such directory");
    assert!(browser.items.is_empty());
}

#[test]
fn unnamed_files_show_hash_and_time() {
    let mut browser = Browser::new("lib", BrowserItemType::Loop);
    browser
        .scan_with(&Listing(Ok(vec![
            dated("lib/loop-ABCDEF-.wav", 1234),
            BrowserFile { path: "lib/loop-XY.ogg".to_string(), modified: None, is_file: true },
            BrowserFile { path: "lib/loop-ZZ-dir.wav".to_string(), modified: None, is_file: false },
        ])))
        .unwrap();
    let names: Vec<&str> = browser.items.iter().map(|i| i.name.as_str()).collect();
    assert_eq!(names, ["AB 1234", "XY unknown-time"]);
    assert!(browser.items.iter().all(|i| i.default_name));
}

fn patch_browser() -> Browser {
    let mut b = Browser::new("p", BrowserItemType::Patch);
    for name in ["a", "b", "|", "c", "d", "|", "e"] {
        let t = if name == "|" { BrowserItemType::Division } else { BrowserItemType::Patch };
        b.add_item(BrowserItem::new(name, false, t), false);
    }
    b
}

#[test]
fn moving_never_rests_on_a_division() {
    let mut b = patch_browser();
    for (adjust, jump) in [(1, 0), (1, 0), (-3, 0), (0, 1), (0, 1), (0, -1), (5, 0), (-9, 0)] {
        b.move_to(adjust, jump);
        let cur = b.current_index.unwrap();
        assert_ne!(b.items[cur].item_type, BrowserItemType::Division);
    }
}

#[test]
fn jumps_and_bank_moves_follow_divisions() {
    let mut b = patch_browser();
    b.move_to(0, 1);
    assert_eq!(b.current_item().unwrap().name, "c");
    b.move_to(0, 1);
    assert_eq!(b.current_item().unwrap().name, "e");
    b.move_to(0, -1);
    assert_eq!(b.current_item().unwrap().name, "c");
    assert!(b.move_patch_bank_to_index(2));
    assert_eq!(b.current_item().unwrap().name, "e");
    assert!(!b.move_patch_bank_to_index(3));
    assert!(b.move_patch_bank(-1));
    assert_eq!(b.current_item().unwrap().name, "d");
}

#[test]
fn events_for_other_browsers_are_ignored() {
    let mut b = Browser::with_id(3, "p", BrowserItemType::Loop);
    b.add_item(BrowserItem::new("a", false, BrowserItemType::Loop), false);
    b.add_item(BrowserItem::new("b", false, BrowserItemType::Loop), false);
    assert!(!b.receive_event(&Event::BrowserMoveToItem { browserid: 4, adjust: 1, jump_adjust: 0 }));
    assert_eq!(b.current_index, Some(0));
    assert!(b.receive_event(&Event::BrowserMoveToItem { browserid: 3, adjust: 1, jump_adjust: 0 }));
    assert_eq!(b.current_index, Some(1));
    assert!(b.receive_event(&Event::BrowserSelectItem { browserid: 3 }));
    assert_eq!(b.selected_index, Some(1));
    assert!(!b.receive_event(&Event::StartSession));
}

#[test]
fn renames_follow_the_file_on_disk() {
    let mut b = Browser::new("lib", BrowserItemType::Loop);
    let mut item = BrowserItem::new("old", false, BrowserItemType::Loop);
    item.filename = Some("lib//loop-ab-old.wav".to_string());
    item.modified = Some(FileTime::from_secs(7));
    b.add_item(item, false);
    assert!(b.item_renamed_on_disk("lib/loop-ab-old.wav", "lib/loop-ab-.wav", ""));
    assert_eq!(b.items[0].name, "ab 7");
    assert!(b.items[0].default_name);
    assert!(b.item_renamed_on_disk("lib/loop-ab-.wav", "lib/loop-ab-new.wav", "New"));
    assert_eq!(b.items[0].name, "New");
    assert!(!b.item_renamed_on_disk("lib/other.wav", "x", "y"));
    assert!(b.begin_rename());
    assert!(b.commit_rename(None));
    assert!(!b.renaming);
    assert!(!b.commit_rename(Some("again")));
}

#[test]
fn path_components() {
    assert_eq!(file_name("/usr/bin/"), Some("bin".to_string()));
    assert_eq!(file_name("tmp/foo.txt/."), Some("foo.txt".to_string()));
    assert_eq!(file_name("a/.."), None);
    assert_eq!(file_name("/"), None);
    assert_eq!(file_stem("x/archive.tar.gz"), Some("archive.tar".to_string()));
    assert_eq!(file_stem(".bashrc"), Some(".bashrc".to_string()));
    assert!(paths_equal("a//b/./c/", "a/b/c"));
    assert!(!paths_equal("/a", "a"));
    assert!(!paths_equal("./a", "a"));
}

#[test]
fn shell_quoting_closes_and_reopens_quotes() {
    let mut buf = vec![0xffu8; 32];
    assert_eq!(stacktrace_shell_quote_7(&mut buf, b"it's\0ignored"), 0);
    assert_eq!(c_text(&buf), b"'it'\"'\"'s'");
    let mut small = vec![0u8; 4];
    assert_eq!(stacktrace_shell_quote_7(&mut small, b"abcdef"), -1);
    assert_eq!(&small, b"'ab\0");
    let mut pos = 0usize;
    let mut buf = vec![0u8; 16];
    assert_eq!(stacktrace_append_shell_quoted_5(&mut buf, &mut pos, b"x"), 0);
    assert_eq!(pos, 3);
}

#[test]
fn crash_report_commands() {
    let mut buf = vec![0u8; 128];
    assert_eq!(stacktrace_build_nm_command_12(&mut buf, 1, b"/usr/bin/fweelin"), 0);
    assert_eq!(c_text(&buf), b"nm -B '/usr/bin/fweelin'");
    assert_eq!(stacktrace_build_debugger_command_13(&mut buf, b"fweelin", b"/tmp/cmds", 4242), 0);
    assert_eq!(c_text(&buf), b"gdb -q 'fweelin' 4242 2>/dev/null <'/tmp/cmds' >fweelin-stackdump");
    let mut tiny = vec![0u8; 10];
    assert_eq!(stacktrace_build_debugger_command_13(&mut tiny, b"fweelin", b"/tmp/cmds", 1), -1);
    assert_eq!(tiny[9], 0);
    assert_eq!(stacktrace_format_symbol_entry_11(&mut buf, 3, 0xbeef, b"main", 0x1a, b'T'), 0);
    assert_eq!(c_text(&buf), b"[3] 0x0000beef <main + 0x1a> T\n");
    assert_eq!(stacktrace_format_symbol_entry_11(&mut buf, -1, 0x123456789, b"", 0, b'T'), 0);
    assert_eq!(c_text(&buf), b"[-1] 0x123456789 ???\n");
    let mut name = vec![0u8; 4];
    assert_eq!(stacktrace_copy_symbol_name_10(&mut name, b"symbol"), 0);
    assert_eq!(&name, b"sym\0");
}

#[test]
fn reads_nm_lines() {
    let mut addr = 0u64;
    let mut kind = 0u8;
    let mut name = vec![0u8; 16];
    assert_eq!(stacktrace_parse_nm_symbol_line_8(b"0000000000401000 T main\n", &mut addr, &mut kind, &mut name), 1);
    assert_eq!(addr, 0x401000);
    assert_eq!(kind, b'T');
    assert_eq!(c_text(&name), b"main");
    assert_eq!(stacktrace_parse_nm_symbol_line_8(b"  0x1f t\n", &mut addr, &mut kind, &mut name), 0);
    assert_eq!(addr, 0x1f);
    assert_eq!(kind, b't');
    assert_eq!(stacktrace_parse_nm_symbol_line_8(b"zz T main", &mut addr, &mut kind, &mut name), 0);
    assert_eq!(addr, 0x1f);
    let mut short = vec![0u8; 3];
    assert_eq!(stacktrace_parse_nm_symbol_line_8(b"10 D data_start", &mut addr, &mut kind, &mut short), 1);
    assert_eq!(&short, b"da\0");
}

#[test]
fn user_variable_values_and_arithmetic() {
    assert_eq!(CoreDataType::from_name("range"), CoreDataType::Range);
    assert_eq!(CoreDataType::from_name("double"), CoreDataType::Invalid);
    let mut a = UserVariable::new();
    a.set_char(100);
    let mut b = UserVariable::new();
    b.set_char(100);
    a.add_assign(&b);
    assert_eq!(a.as_char(), 127);
    let mut i = UserVariable::new();
    i.set_int(i32::MAX);
    i.mul_assign(&b);
    assert_eq!(i.as_i32(), i32::MAX);
    let mut l = UserVariable::new();
    l.set_long(-5_000_000_000);
    assert_eq!(l.as_i64(), -5_000_000_000);
    assert_eq!(l.print(), "-5000000000");
    let mut r = UserVariable::new();
    r.set_range(-7, 9);
    let mut d = UserVariable::new();
    d.set_range(2, 0);
    r.div_assign(&d);
    assert_eq!(r.print(), "-3>9");
    r.sub_assign(&b);
    assert_eq!((r.as_range().lo, r.as_range().hi), (-103, -91));
}

#[test]
fn value_parsers_report_bad_values() {
    assert_eq!(positive_i32("-4", 1), Ok(1));
    assert_eq!(positive_i32("x", 1), Err("invalid integer 'x'".to_string()));
    assert_eq!(parse_codec(" wave "), Ok(Codec::Wav));
    assert_eq!(parse_codec("mp3"), Err("invalid audio output format 'mp3'".to_string()));
    assert_eq!(parse_pair(" 640 , 480 ,9"), Ok((640, 480)));
    assert_eq!(parse_pair("640"), Err("invalid pair '640'".to_string()));
    assert_eq!(parse_positive_u32("N", "0"), Err("N must be non-zero".to_string()));
    assert_eq!(parse_positive_u32("N", "-1"), Err("N must be a positive integer".to_string()));
    assert_eq!(
        requested_format_from(None, None),
        Ok(RequestedFormat { sample_rate: 48_000, buffer_frames: 256 })
    );
    assert_eq!(choose_buffer_frames(20_000, Some((1, 30_000)), Some((1, 30_000))), Some(16_384));
    assert_eq!(choose_buffer_frames(64, None, Some((1, 2))), None);
}

#[test]
fn mixer_checks_values_and_reuses_the_card() {
    let mut m = HardwareMixerInterface::new(AlsaMixerBackend::new());
    assert_eq!(
        m.alsa_mixer_control_set(0, -1, 1, -1, -1, -1),
        Err("invalid ALSA mixer setting: no numid".to_string())
    );
    assert_eq!(
        m.alsa_mixer_control_set(0, 1, -1, -1, -1, -1),
        Err("invalid ALSA mixer setting: no control values".to_string())
    );
    assert_eq!(
        m.alsa_mixer_control_set(2, 5, -1, 7, -1, -1).unwrap(),
        vec!["-D", "hw:2", "cset", "numid=5", "-1,7"]
    );
    m.backend_mut().close();
    assert_eq!(m.alsa_mixer_control_set(2, 5, 1, -1, -1, -1), Err("ALSA mixer is not open".to_string()));
    assert_eq!(m.alsa_mixer_control_set(3, 5, 1, -1, -1, -1).unwrap()[1], "hw:3");
}

#[test]
fn markers_and_managed_chains() {
    let mut points = MarkerPoints::new();
    for (offset, data) in [(10, 1), (20, 2), (30, 3)] {
        points.markers.push(TimeMarker { offset, data });
    }
    assert_eq!(points.count(), 3);
    assert_eq!(points.nth_before(0, 25).unwrap().data, 2);
    assert_eq!(points.nth_before(1, 25).unwrap().data, 1);
    assert_eq!(points.nth_before(2, 25).unwrap().data, 1);
    assert_eq!(points.nth_before(3, 25), None);
    let mut manager = BlockManager::new();
    let a = manager.add();
    let b = manager.add();
    manager.remove(a);
    manager.remove(9);
    manager.collect();
    assert_eq!(b, 1);
    assert_eq!(manager.add(), 1);
    let _ = ManagedChainStatus::Running;
}

#[test]
fn profile_keeps_the_longest_run() {
    let mut p = DspProfile::new(true, Some("out".to_string()));
    p.record_root_process(30, 64);
    p.record_root_process(10, 64);
    assert_eq!(p.counters[1].calls, 2);
    assert_eq!(p.counters[1].max_ticks, 30);
    assert_eq!(p.counters[1].total_ticks, 40);
    let mut due = 0;
    for _ in 0..256 {
        if p.record_audio_callback(1, 1) {
            due += 1;
        }
    }
    assert_eq!(due, 2);
}

#[derive(Default)]
struct Config {
    added: Vec<String>,
}

impl StartupConfig for Config {
    fn add_int_constant(&mut self, name: &str, _value: i32) {
        self.added.push(name.to_string());
    }
    fn add_empty_variable(&mut self, name: &str) {
        self.added.push(name.to_string());
    }
    fn parse(&mut self) -> Result<(), String> {
        Ok(())
    }
    fn start(&mut self) -> Result<(), String> {
        Ok(())
    }
    fn refresh_system_variables(&mut self) -> Result<(), String> {
        Ok(())
    }
}

struct Services {
    fail_audio: bool,
    rolled_back: usize,
    committed: bool,
}

impl StartupServices for Services {
    fn lock_memory(&mut self) -> Result<(), String> { Ok(()) }
    fn init_rt_threads(&mut self) -> Result<(), String> { Ok(()) }
    fn register_main_thread(&mut self) -> Result<(), String> { Ok(()) }
    fn init_platform_threads(&mut self) -> Result<(), String> { Ok(()) }
    fn init_sdl(&mut self) -> Result<(), String> { Ok(()) }
    fn init_memory_manager(&mut self) -> Result<(), String> { Ok(()) }
    fn init_event_manager(&mut self) -> Result<(), String> { Ok(()) }
    fn activate_video(&mut self) -> Result<(), String> { Ok(()) }
    fn wait_for_video(&mut self) -> Result<(), String> { Ok(()) }
    fn init_audio(&mut self) -> Result<(), String> {
        if self.fail_audio { Err("no device".to_string()) } else { Ok(()) }
    }
    fn init_core_graph(&mut self) -> Result<(), String> { Ok(()) }
    fn init_synth_and_buffers(&mut self) -> Result<(), String> { Ok(()) }
    fn init_loop_and_scene_browsers(&mut self) -> Result<(), String> { Ok(()) }
    fn init_input_and_midi(&mut self) -> Result<(), String> { Ok(()) }
    fn init_osc_and_mixer(&mut self) -> Result<(), String> { Ok(()) }
    fn link_system_variables(&mut self) -> Result<(), String> { Ok(()) }
    fn activate_signal_processing(&mut self) -> Result<(), String> { Ok(()) }
    fn init_streamers_and_finalize_rings(&mut self) -> Result<(), String> { Ok(()) }
    fn add_processing_elements(&mut self) -> Result<(), String> { Ok(()) }
    fn refresh_system_variables(&mut self) -> Result<(), String> { Ok(()) }
    fn rollback_setup(&mut self) {
        self.rolled_back += 1;
    }
    fn commit_setup(&mut self) {
        self.committed = true;
    }
}

#[test]
fn startup_registers_variables_and_rolls_back_once() {
    let names = startup_variable_names(1, 2);
    assert_eq!(names[0], "SYSTEM_midi_transpose");
    assert_eq!(names[names.len() - 5], "SYSTEM_in_1_volume");
    assert_eq!(names[names.len() - 1], "SYSTEM_loopid_lastrecord_1");
    let mut cfg = Config::default();
    let mut ok = Services { fail_audio: false, rolled_back: 0, committed: false };
    assert!(setup(&mut cfg, &mut ok, 1, 2).is_ok());
    assert!(ok.committed);
    assert_eq!(cfg.added[0], "BROWSE_loop");
    assert_eq!(cfg.added.len(), 5 + names.len());
    let mut failing = Services { fail_audio: true, rolled_back: 0, committed: false };
    let err = setup(&mut Config::default(), &mut failing, 0, 0).unwrap_err();
    assert_eq!(err.phase, "init_audio");
    assert_eq!(err.message, "no device");
    assert_eq!(failing.rolled_back, 1);
    assert!(!failing.committed);
}

fn range(channels: u16, lo: u32, hi: u32, buffer: Option<(u32, u32)>, is_f32: bool) -> StreamConfigRange {
    StreamConfigRange { channels, min_sample_rate: lo, max_sample_rate: hi, buffer_size: buffer, is_f32 }
}

fn options(rate: u32, frames: u32) -> CpalAudioOptions {
    CpalAudioOptions { preferred_sample_rate: rate, preferred_buffer_frames: frames, ring_periods: 4 }
}

#[test]
fn negotiation_prefers_the_closest_common_rate() {
    let input = [range(2, 44_100, 48_000, Some((64, 512)), true)];
    let output = [range(2, 48_000, 48_000, Some((32, 256)), true)];
    assert_eq!(negotiate_format(&input, &output, options(48_000, 128)), Ok((48_000, 128)));
    assert_eq!(negotiate_format(&input, &output, options(50_000, 1024)), Ok((48_000, 256)));
    let odd_in = [range(2, 22_050, 22_050, None, true)];
    let odd_out = [range(2, 8_000, 32_000, None, true)];
    assert_eq!(negotiate_format(&odd_in, &odd_out, options(48_000, 0)), Ok((22_050, 1)));
    let ints = [range(2, 48_000, 48_000, None, false)];
    assert_eq!(
        negotiate_format(&ints, &output, options(48_000, 128)),
        Err("input and output have no common f32 sample rate".to_string())
    );
    let tight_in = [range(2, 48_000, 48_000, Some((512, 1024)), true)];
    assert_eq!(
        negotiate_format(&tight_in, &output, options(48_000, 128)),
        Err("input and output have no common fixed buffer size".to_string())
    );
}

#[test]
fn channel_count_closest_to_stereo() {
    let ranges = [
        range(1, 8_000, 96_000, None, true),
        range(6, 8_000, 96_000, None, true),
        range(2, 8_000, 96_000, None, false),
        range(3, 8_000, 96_000, None, true),
        range(2, 8_000, 16_000, None, true),
    ];
    assert_eq!(best_channel_count(&ranges, true, 48_000), Ok(1));
    assert_eq!(
        best_channel_count(&[], true, 48_000),
        Err("audio input has no negotiated f32 format".to_string())
    );
    assert_eq!(
        best_channel_count(&ranges[..1], false, 4_000),
        Err("audio output has no negotiated f32 format".to_string())
    );
}

#[test]
fn renamer_types_backspaces_and_stops_at_the_buffer_end() {
    let mut r = ItemRenamer::new(None);
    assert_eq!(r.current_name(), "");
    r.append('L');
    r.append('é');
    assert_eq!(r.current_name(), "Lé");
    r.backspace();
    assert_eq!(r.current_name(), "L");
    r.backspace();
    r.backspace();
    assert_eq!(r.current_name(), "");
    for _ in 0..600 {
        r.append('x');
    }
    assert_eq!(r.current_name().len(), 511);
    assert_eq!(r.finish(true).unwrap().len(), 511);
    assert!(!r.renaming);
    let mut other = ItemRenamer::new(Some("keep"));
    assert_eq!(other.finish(false), None);
}

#[test]
fn fresh_buffers_offer_zeroed_space_from_the_start() {
    let mut rb = RingBuffer::create(4);
    assert_eq!(rb.write_vector()[0].len, 3);
    rb.advance_write(2);
    assert_eq!(rb.read_vector()[0].buf, b"\0\0");
    assert_eq!(rb.read_vector()[1].len, 0);
    rb.reset();
    assert_eq!(rb.read_space(), 0);
    for size in [0, 1] {
        let mut x = RingBuffer::create(size);
        assert_eq!(x.write(b"x", 1), 0);
    }
}
