use freewheeling::browser::{
    Browser, BrowserFile, BrowserFileSystem, BrowserItem, BrowserItemType, FileTime,
};
use freewheeling::core_persistence::{encode_hash, md5_audio, saveable_path, split_filename};
use freewheeling::datatypes::{CoreDataType, RtDataStructUpdater, UserVariable};
use freewheeling::jack_ringbuffer::RingBuffer;
use freewheeling::app_services::{core_event, InputEvent, InputPoll, SdlEvents};
use freewheeling::core_state::CoreEvent;
use freewheeling::audio_format::choose_buffer_frames;
use freewheeling::acceptance::{jack_buffer_frames, requested_format_from, RequestedFormat};
use freewheeling::fluid::fluidlite_ignores_legacy_setting;
use freewheeling::dsp_profile::DspProfile;
use freewheeling::renamer::{ItemRenamer, RENAME_BUF_SIZE};

struct FakeFs(Vec<BrowserFile>);

impl BrowserFileSystem for FakeFs {
    fn entries(&self, _directory: &str) -> Result<Vec<BrowserFile>, String> {
        Ok(self.0.clone())
    }
}

fn file(name: &str) -> BrowserFile {
    BrowserFile { path: name.to_string(), modified: None, is_file: true }
}

fn dated_file(name: &str, seconds: i64) -> BrowserFile {
    BrowserFile { path: name.to_string(), modified: Some(FileTime::from_secs(seconds)), is_file: true }
}

#[test]
fn capacity_and_wraparound() {
    let mut rb = RingBuffer::create(5);
    assert_eq!(rb.write(b"abcdx", 5), 4);
    let mut out = [0; 2];
    assert_eq!(rb.read(&mut out, 2), 2);
    assert_eq!(&out, b"ab");
    assert_eq!(rb.write(b"XY", 2), 2);
    let mut all = [0; 4];
    assert_eq!(rb.read(&mut all, 4), 4);
    assert_eq!(&all, b"cdXY");
}

#[test]
fn paths_and_split() {
    let hash = "0123456789ABCDEF0123456789ABCDEF";
    let p = saveable_path("lib", "loop", hash, Some("name"), Some(".wav"));
    assert_eq!(p, "lib/loop-0123456789ABCDEF0123456789ABCDEF-name.wav");
    assert_eq!(
        split_filename("lib/loop-0123456789ABCDEF0123456789ABCDEF-name.wav", 8).unwrap(),
        ("lib/loop".into(), hash.into(), "name".into())
    );
}

#[test]
fn md5_known() {
    assert_eq!(encode_hash(&md5_audio(b"abc")), "900150983CD24FB0D6963F7D28E17F72");
}

#[test]
fn scans_filters_and_sorts_without_host_io() {
    let mut browser = Browser::new("virtual", BrowserItemType::Loop);
    browser
        .scan_with(&FakeFs(vec![
            dated_file("loop-xx-Zulu.wav", 1),
            file("scene-nope.xml"),
            dated_file("loop-aa-Alpha-take.flac", 4),
            dated_file("loop-bb-Beta.ogg", 3),
            dated_file("loop-cc-Gamma.au", 2),
        ]))
        .unwrap();
    assert_eq!(
        browser.items.iter().map(|i| i.name.as_str()).collect::<Vec<_>>(),
        ["Alpha-take", "Beta", "Gamma", "Zulu"]
    );
}

#[test]
fn navigation_skips_divisions_and_selection_is_stable() {
    let mut browser = Browser::new(".", BrowserItemType::Loop);
    browser.add_item(BrowserItem::new("a", false, BrowserItemType::Loop), false);
    browser.add_item(BrowserItem::new("division", true, BrowserItemType::Division), false);
    browser.add_item(BrowserItem::new("b", false, BrowserItemType::Loop), false);
    browser.move_to(1, 0);
    assert_eq!(browser.current_item().unwrap().name, "b");
    assert_eq!(browser.select_current().unwrap().name, "b");
}

#[test]
fn rename_empty_restores_generated_display_name() {
    let mut browser = Browser::new(".", BrowserItemType::Loop);
    let mut item = BrowserItem::new("old", false, BrowserItemType::Loop);
    item.filename = Some("loop-ab-.wav".to_string());
    browser.add_item(item, false);
    assert!(browser.begin_rename());
    assert!(browser.commit_rename(Some("")));
    assert!(browser.current_item().unwrap().default_name);
}

#[test]
fn divisions_follow_cpp_time_gaps_and_named_item_boundaries() {
    let mut browser = Browser::new(".", BrowserItemType::Loop);
    let mut newest = BrowserItem::new("AB recent", true, BrowserItemType::Loop);
    newest.modified = Some(FileTime::from_secs(100));
    let mut adjacent = BrowserItem::new("CD adjacent", true, BrowserItemType::Loop);
    adjacent.modified = Some(FileTime::from_secs(95));
    let mut named = BrowserItem::new("named", false, BrowserItemType::Loop);
    named.modified = Some(FileTime::from_secs(94));
    browser.add_item(newest, true);
    browser.add_item(adjacent, true);
    browser.add_item(named, true);
    browser.add_divisions(10);
    assert_eq!(
        browser.items.iter().map(|item| item.item_type).collect::<Vec<_>>(),
        [
            BrowserItemType::Loop,
            BrowserItemType::Loop,
            BrowserItemType::Division,
            BrowserItemType::Loop,
        ]
    );
}

struct Probe(i32);

impl RtDataStructUpdater for Probe {
    fn update_num_rw_threads(&mut self, n: i32) {
        self.0 = n;
    }
}

#[test]
fn forwards_thread_count_to_implementation() {
    let mut probe = Probe(0);
    probe.update_num_rw_threads(7);
    assert_eq!(probe.0, 7);
}

#[test]
fn core_data_type_discriminants_match_cpp_storage_abi() {
    assert_eq!(CoreDataType::Char.code(), 0);
    assert_eq!(CoreDataType::Invalid.code(), 7);
}

#[test]
fn char_is_signed_and_precision_promotion_preserves_its_value() {
    let mut value = UserVariable::new();
    value.set_char(-1);
    assert_eq!(value.as_char(), -1);
    assert_eq!(value.as_i32(), -1);

    let mut integer = UserVariable::new();
    integer.set_int(4);
    value.raise_precision(&integer);
    assert_eq!(value.get_type(), CoreDataType::Int);
    assert_eq!(value.as_i32(), -1);
}

#[test]
fn quit_is_a_real_core_exit_event() {
    assert_eq!(core_event(InputEvent::Quit), Some(CoreEvent::ExitSession));
}

#[test]
fn buffer_negotiation_clamps_to_common_range() {
    assert_eq!(choose_buffer_frames(128, Some((64, 512)), Some((32, 256))), Some(128));
    assert_eq!(choose_buffer_frames(16, Some((64, 512)), Some((32, 256))), Some(64));
    assert_eq!(choose_buffer_frames(1024, Some((64, 512)), Some((32, 256))), Some(256));
    assert_eq!(choose_buffer_frames(128, Some((512, 1024)), Some((64, 256))), None);
}

#[test]
fn parses_128_frame_request_exactly() {
    assert_eq!(
        requested_format_from(Some("48000"), Some("128")).unwrap(),
        RequestedFormat { sample_rate: 48_000, buffer_frames: 128 }
    );
}

#[test]
fn rejects_invalid_realtime_format_values() {
    assert!(requested_format_from(Some("48k"), Some("128")).is_err());
    assert!(requested_format_from(Some("48000"), Some("0")).is_err());
    assert!(requested_format_from(Some("48000"), Some("512")).is_err());
}

#[test]
fn requests_128_frames_from_jack() {
    assert_eq!(jack_buffer_frames(RequestedFormat { sample_rate: 48_000, buffer_frames: 128 }), 128);
}

#[test]
fn only_the_known_fluidlite_parallel_render_compatibility_knob_is_ignored() {
    assert!(fluidlite_ignores_legacy_setting("synth.parallel-render"));
    assert!(!fluidlite_ignores_legacy_setting("synth.polyphony"));
    assert!(!fluidlite_ignores_legacy_setting("not-a-real-setting"));
}

#[test]
fn process_chain_invalid_kind_is_ignored() {
    let mut profile = DspProfile::new(true, None);
    profile.record_process_chain(-1, 1, 1);
    profile.record_process_chain(5, 1, 1);
    assert!(profile.counters.iter().all(|c| c.calls == 0));
}

#[test]
fn renamer_truncates_non_ascii_initial_name_on_a_utf8_boundary() {
    let name = "a".repeat(RENAME_BUF_SIZE - 2) + "é";
    let renamer = ItemRenamer::new(Some(&name));

    assert_eq!(renamer.current_name(), "a".repeat(RENAME_BUF_SIZE - 2));
    assert_eq!(renamer.current_name().len(), RENAME_BUF_SIZE - 2);
}

struct QueuedInput(Vec<InputEvent>);

impl InputPoll for QueuedInput {
    fn poll(&mut self) -> Option<InputEvent> {
        if self.0.is_empty() {
            None
        } else {
            Some(self.0.remove(0))
        }
    }
}

#[test]
fn input_events_become_core_events() {
    let mut events = SdlEvents::new(QueuedInput(vec![InputEvent::Other, InputEvent::Quit]));
    assert_eq!(events.poll(), None);
    assert_eq!(events.poll(), Some(CoreEvent::ExitSession));
    assert_eq!(events.poll(), None);
}

#[test]
fn split_gives_back_the_parts_of_a_saved_path() {
    let hash = "00ff00ff00ff00ff00ff00ff00ff00fF";
    let cases: [(&str, &str, Option<&str>, &str); 4] = [
        ("lib", "loop", None, ".wav"),
        ("my.lib-dir", "scene", Some("a-b.c"), ".xml"),
        ("bibliothèque", "loop", Some(""), ".flac"),
        ("l", "b", Some("ünïcode-name"), ".ögg"),
    ];
    for (library, base, name, ext) in cases {
        let path = saveable_path(library, base, hash, name, Some(ext));
        let prefix = format!("{library}/{base}");
        assert_eq!(
            split_filename(&path, prefix.len()).unwrap(),
            (prefix.clone(), hash.to_string(), name.unwrap_or("").to_string())
        );
    }
}
