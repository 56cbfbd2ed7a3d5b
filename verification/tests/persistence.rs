use freewheeling::core_persistence_parse::scene_from_nodes;
use freewheeling::xml::{XmlAttribute, XmlNode};
use std::cell::RefCell;
use std::collections::HashMap;

use freewheeling::browser::FileTime;
use freewheeling::core_persistence_parse::{parse_scene, parse_scene_xml};
use freewheeling::core_persistence::{
    encode_hash, md5_audio, md5_loop_samples, scene_xml, LoopMeta, LoopSource, Saveable, Scene, SnapshotLoop,
    SnapshotMeta,
};
use freewheeling::paths::{path_precedes, text_precedes};
use freewheeling::persistence_store::{
    loop_metadata_from_bytes, saved_files_listing, PersistenceBrowser, PersistenceFile,
    PersistenceFileSystem, PersistenceRuntime,
};

#[derive(Default)]
struct Mem {
    files: RefCell<HashMap<String, Vec<u8>>>,
    listing: Vec<PersistenceFile>,
    refuse_writes_to: Option<String>,
    refuse_renames_to: Vec<String>,
}

impl PersistenceFileSystem for Mem {
    fn entries(&self, _: &str) -> Result<Vec<PersistenceFile>, String> {
        Ok(self.listing.clone())
    }
    fn file_exists(&self, p: &str) -> Result<bool, String> {
        Ok(self.files.borrow().contains_key(p))
    }
    fn read(&self, p: &str) -> Result<Vec<u8>, String> {
        self.files.borrow().get(p).cloned().ok_or_else(|| "not found".to_string())
    }
    fn write_new(&self, p: &str, b: &[u8]) -> Result<(), String> {
        if self.refuse_writes_to.as_deref().is_some_and(|s| p.ends_with(s)) {
            return Err("disk full".to_string());
        }
        if self.file_exists(p)? {
            return Err("already exists".to_string());
        }
        self.files.borrow_mut().insert(p.to_string(), b.to_vec());
        Ok(())
    }
    fn rename(&self, from: &str, to: &str) -> Result<(), String> {
        if self.refuse_renames_to.iter().any(|s| to.ends_with(s.as_str())) {
            return Err("read-only".to_string());
        }
        if self.files.borrow().contains_key(to) {
            return Err("already exists".to_string());
        }
        let bytes = self.files.borrow_mut().remove(from).ok_or_else(|| "not found".to_string())?;
        self.files.borrow_mut().insert(to.to_string(), bytes);
        Ok(())
    }
    fn remove(&self, path: &str) -> Result<(), String> {
        self.files.borrow_mut().remove(path).map(|_| ()).ok_or_else(|| "not found".to_string())
    }
}

struct L {
    hash: Option<[u8; 16]>,
}

impl Saveable for L {
    fn save_hash(&self) -> Option<[u8; 16]> {
        self.hash
    }
    fn set_save_hash(&mut self, h: [u8; 16]) {
        self.hash = Some(h)
    }
}

impl LoopSource for L {
    fn audio_bytes(&self) -> &[u8] {
        b"abc"
    }
    fn object_name(&self) -> Option<&str> {
        Some("take")
    }
    fn nbeats(&self) -> i64 {
        4
    }
    fn pulse_length(&self) -> u32 {
        12
    }
}

#[derive(Default)]
struct Listing {
    added: Vec<(String, Option<FileTime>, bool)>,
    cleared: usize,
    divided: usize,
}

impl PersistenceBrowser for Listing {
    fn clear(&mut self) {
        self.cleared += 1;
        self.added.clear();
    }
    fn add(&mut self, path: String, modified: Option<FileTime>, default_name: bool) {
        self.added.push((path, modified, default_name));
    }
    fn divisions(&mut self) {
        self.divided += 1;
    }
}

const ABC: &str = "900150983CD24FB0D6963F7D28E17F72";

#[test]
fn save_and_load_are_real_operations() {
    let r = PersistenceRuntime::new(Mem::default(), ());
    let mut l = L { hash: None };
    let (_, d) = r.save_loop(&mut l, "lib", ".wav").unwrap();
    assert_eq!(r.load_loop_metadata(&d).unwrap().nbeats, Some(4));
    assert!(l.hash.is_some());
}

#[test]
fn save_loop_names_both_files_by_the_hash() {
    let r = PersistenceRuntime::new(Mem::default(), ());
    let mut l = L { hash: None };
    let (a, d) = r.save_loop(&mut l, "lib", ".wav").unwrap();
    assert_eq!(a, format!("lib/loop-{ABC}-take.wav"));
    assert_eq!(d, format!("lib/loop-{ABC}-take.xml"));
    assert_eq!(r.filesystem.files.borrow().get(&a).unwrap(), b"abc");
    let meta = r.load_loop_metadata(&d).unwrap();
    assert!(meta.smooth_end);
    assert_eq!(meta.pulse_length, Some(12));
}

#[test]
fn save_loop_refuses_a_saved_loop_and_a_collision() {
    let r = PersistenceRuntime::new(Mem::default(), ());
    let mut l = L { hash: Some([0; 16]) };
    assert_eq!(r.save_loop(&mut l, "lib", ".wav").unwrap_err(), "loop marked already saved");
    let mut fresh = L { hash: None };
    r.save_loop(&mut fresh, "lib", ".wav").unwrap();
    let mut again = L { hash: None };
    assert_eq!(
        r.save_loop(&mut again, "lib", ".wav").unwrap_err(),
        "MD5 collision while saving loop- file exists!"
    );
    assert!(again.hash.is_none());
}

#[test]
fn save_loop_takes_the_audio_back_when_metadata_fails() {
    let fs = Mem { refuse_writes_to: Some(".xml".to_string()), ..Mem::default() };
    let r = PersistenceRuntime::new(fs, ());
    let mut l = L { hash: None };
    assert_eq!(r.save_loop(&mut l, "lib", ".wav").unwrap_err(), "disk full");
    assert!(r.filesystem.files.borrow().is_empty());
    assert!(l.hash.is_none());
}

#[test]
fn save_loop_contents_reports_paths_and_hash() {
    let r = PersistenceRuntime::new(Mem::default(), ());
    let (a, d, h) = r.save_loop_contents(None, b"abc", None, 2, 5, "lib", ".ogg").unwrap();
    assert_eq!(a, format!("lib/loop-{ABC}.ogg"));
    assert_eq!(d, format!("lib/loop-{ABC}.xml"));
    assert_eq!(h[0], 0x90);
    assert_eq!(
        String::from_utf8(r.filesystem.files.borrow().get(&d).unwrap().clone()).unwrap(),
        "<?xml version=\"1.0\"?>\n<loop version=\"1\" nbeats=\"2\" pulselen=\"5\"/>\n"
    );
}

fn saved_loop(r: &PersistenceRuntime<Mem, ()>) -> String {
    let mut l = L { hash: None };
    r.save_loop(&mut l, "lib", ".wav").unwrap();
    format!("lib/loop-{ABC}-take")
}

#[test]
fn rename_saveable_moves_every_file() {
    let r = PersistenceRuntime::new(Mem::default(), ());
    let stub = saved_loop(&r);
    let renamed = r.rename_saveable(&stub, 8, Some("verse"), &[".wav", ".xml", ".flac"]).unwrap();
    assert_eq!(renamed, format!("lib/loop-{ABC}-verse"));
    let files = r.filesystem.files.borrow();
    assert!(files.contains_key(&format!("{renamed}.wav")));
    assert!(files.contains_key(&format!("{renamed}.xml")));
    assert_eq!(files.len(), 2);
}

#[test]
fn rename_saveable_refuses_bad_names_and_missing_files() {
    let r = PersistenceRuntime::new(Mem::default(), ());
    assert_eq!(
        r.rename_saveable("lib/loop", 8, None, &[".wav"]).unwrap_err(),
        "invalid filename: lib/loop"
    );
    assert_eq!(
        r.rename_saveable("lib/loop-XYZ", 8, None, &[".wav"]).unwrap_err(),
        "invalid hash in filename: lib/loop-XYZ"
    );
    let stub = format!("lib/loop-{ABC}");
    assert_eq!(
        r.rename_saveable(&stub, 8, None, &[".wav"]).unwrap_err(),
        format!("no persisted files found for '{stub}'")
    );
}

#[test]
fn rename_saveable_refuses_an_existing_destination() {
    let r = PersistenceRuntime::new(Mem::default(), ());
    let stub = saved_loop(&r);
    r.filesystem.files.borrow_mut().insert(format!("lib/loop-{ABC}-verse.xml"), Vec::new());
    assert_eq!(
        r.rename_saveable(&stub, 8, Some("verse"), &[".wav", ".xml"]).unwrap_err(),
        format!("rename destination already exists: lib/loop-{ABC}-verse.xml")
    );
    assert!(r.filesystem.files.borrow().contains_key(&format!("{stub}.wav")));
}

#[test]
fn rename_saveable_rolls_back_completed_moves() {
    let fs = Mem { refuse_renames_to: vec!["verse.xml".to_string()], ..Mem::default() };
    let r = PersistenceRuntime::new(fs, ());
    let stub = saved_loop(&r);
    assert_eq!(
        r.rename_saveable(&stub, 8, Some("verse"), &[".wav", ".xml"]).unwrap_err(),
        format!("could not rename '{stub}.xml' to 'lib/loop-{ABC}-verse.xml': read-only")
    );
    let files = r.filesystem.files.borrow();
    assert!(files.contains_key(&format!("{stub}.wav")));
    assert!(files.contains_key(&format!("{stub}.xml")));
}

fn entry(path: &str, is_file: bool) -> PersistenceFile {
    PersistenceFile { path: path.to_string(), modified: None, is_file }
}

#[test]
fn scan_browser_lists_matching_files_in_path_order() {
    let fs = Mem {
        listing: vec![
            entry("lib/scene-B.xml", true),
            entry("lib/scene-A.xml", true),
            entry("lib/scene-C.wav", true),
            entry("lib/scene-D.xml", false),
            entry("lib/other.xml", true),
            entry("lib/sceneZ.xml", true),
        ],
        ..Mem::default()
    };
    let r = PersistenceRuntime::new(fs, ());
    let mut b = Listing::default();
    r.scan_browser(&mut b, "lib", "scene", ".xml").unwrap();
    let paths: Vec<(&str, bool)> = b.added.iter().map(|(p, _, d)| (p.as_str(), *d)).collect();
    assert_eq!(
        paths,
        vec![("lib/scene-A.xml", false), ("lib/scene-B.xml", false), ("lib/sceneZ.xml", true)]
    );
    assert_eq!(b.cleared, 1);
    assert_eq!(b.divided, 1);
}

#[test]
fn saved_listing_is_stable_for_equal_paths() {
    let entries = vec![entry("a//b.x", true), entry("c.x", true), entry("a/b.x", true)];
    let listed = saved_files_listing(&entries, "", ".x");
    let paths: Vec<&str> = listed.iter().map(|f| f.path.as_str()).collect();
    assert_eq!(paths, vec!["a//b.x", "a/b.x", "c.x"]);
}

#[test]
fn path_order_goes_component_by_component() {
    assert!(path_precedes("/z", "a"));
    assert!(path_precedes("../z", "a"));
    assert!(path_precedes("./z", "../a"));
    assert!(path_precedes("a", "a/b"));
    assert!(!path_precedes("a/b", "a"));
    assert!(path_precedes("a/b", "a-b"));
    assert!(!path_precedes("a//b", "a/b"));
    assert!(!path_precedes("a/b", "a//b"));
    assert!(text_precedes("ab", "b"));
    assert!(text_precedes("a", "ab"));
    assert!(!text_precedes("b", "ab"));
}

#[test]
fn loop_metadata_from_bytes_refuses_other_than_utf8() {
    assert!(loop_metadata_from_bytes(&[0xff, 0xfe]).is_err());
    let meta = loop_metadata_from_bytes(b"<loop version=\"0\" nbeats=\"3\"/>").unwrap();
    assert!(!meta.smooth_end);
    assert_eq!(meta.nbeats, Some(3));
}

#[test]
fn rename_saveable_reports_failed_rollbacks() {
    let fs = Mem {
        refuse_renames_to: vec!["verse.xml".to_string(), "take.wav".to_string()],
        ..Mem::default()
    };
    let r = PersistenceRuntime::new(fs, ());
    let mut l = L { hash: None };
    r.save_loop(&mut l, "lib", ".wav").unwrap();
    let stub = format!("lib/loop-{ABC}-take");
    assert_eq!(
        r.rename_saveable(&stub, 8, Some("verse"), &[".wav", ".xml"]).unwrap_err(),
        format!(
            "could not rename '{stub}.xml' to 'lib/loop-{ABC}-verse.xml': read-only; rollback failed: read-only"
        )
    );
}

#[test]
fn loop_signal_hash_uses_cpp_channel_order_and_quantisation() {
    let left = [0.0f32, 0.5, 0.25].map(f32::to_bits);
    let right = [0.75f32, 0.125].map(f32::to_bits);
    assert_eq!(
        encode_hash(&md5_loop_samples(&left, Some(&right))),
        encode_hash(&md5_audio(&[0, 128, 64, 192, 32]))
    );
}

#[test]
fn loop_signal_hash_of_one_channel_hashes_it_alone() {
    let left = [1.0f32, -0.5, 0.999].map(f32::to_bits);
    assert_eq!(md5_loop_samples(&left, None), md5_audio(&[255, 0, 255]));
    assert_eq!(md5_loop_samples(&[], None), md5_audio(&[]));
}

fn volume_or(text: &Option<String>, default: f32) -> f32 {
    text.as_deref().and_then(|v| v.trim().parse().ok()).unwrap_or(default)
}

#[test]
fn defaults_match_cpp_loader() {
    let s = parse_scene_xml("<scene><loop hash=\"h\"/><snapshot><loopsnapshot/></snapshot></scene>", 9).unwrap();
    assert_eq!(s.loops[0].loop_id, 9);
    assert_eq!(volume_or(&s.loops[0].volume, 1.0), 1.0);
    assert_eq!(s.snapshots[0].loops[0].loop_id, 0);
}

#[test]
fn scenes_read_loops_snapshots_and_errors() {
    let xml = "<scene><loop hash=\"AB\" loopid=\"3\" volume=\"0.5\"/>text<other/>\
               <snapshot snapid=\"2\" name=\"a &amp; b\"><loopsnapshot loopid=\"3\" status=\"1\" loopvol=\"0.7\" triggervol=\"0.8\"/><x/></snapshot></scene>";
    let s = parse_scene(xml).unwrap();
    assert_eq!(s.loops.len(), 1);
    assert_eq!(s.loops[0].hash, "AB");
    assert_eq!(s.loops[0].loop_id, 3);
    assert_eq!(volume_or(&s.loops[0].volume, 1.0), 0.5);
    assert_eq!(s.snapshots.len(), 1);
    assert_eq!(s.snapshots[0].id, 2);
    assert_eq!(s.snapshots[0].name, "a & b");
    assert_eq!(s.snapshots[0].loops.len(), 1);
    assert_eq!(s.snapshots[0].loops[0].status, 1);
    assert_eq!(volume_or(&s.snapshots[0].loops[0].trigger_volume, 0.0), 0.8);
    assert_eq!(
        parse_scene_xml("<scene><loop loopid=\"7\"/></scene>", 0).unwrap_err(),
        "scene definition for loop (id 7) has missing hash"
    );
    assert_eq!(parse_scene("<loop/>").unwrap_err(), "scene data has bad format");
    assert!(parse_scene("<scene>").is_err());
}

fn sample_scene(volume: f32, loop_volume: f32, trigger_volume: f32, name: &str, snap_id: i32, status: i32) -> Scene {
    Scene {
        loops: vec![LoopMeta { hash: "AB".into(), loop_id: 3, volume_bits: volume.to_bits() }],
        snapshots: vec![SnapshotMeta {
            id: snap_id,
            name: name.into(),
            loops: vec![SnapshotLoop {
                loop_id: 3,
                status,
                loop_volume_bits: loop_volume.to_bits(),
                trigger_volume_bits: trigger_volume.to_bits(),
            }],
        }],
    }
}

#[test]
fn scene_floats_match_cpp_five_decimal_serialization() {
    let xml = scene_xml(&sample_scene(0.5, 0.25, 1.0, "snapshot", 1, 2));
    assert!(xml.contains("loopid=\"3\" hash=\"AB\" volume=\"0.50000\""));
    assert!(xml.contains("loopvol=\"0.25000\" triggervol=\"1.00000\""));
}

#[test]
fn scene_serialization_round_trips() {
    let scene = sample_scene(0.5, 0.7, 0.8, "a & b", 2, 1);
    let read = parse_scene(&scene_xml(&scene)).unwrap();
    assert_eq!(read.loops.len(), 1);
    assert_eq!(read.loops[0].hash, scene.loops[0].hash);
    assert_eq!(read.loops[0].loop_id, scene.loops[0].loop_id);
    assert_eq!(volume_or(&read.loops[0].volume, 1.0).to_bits(), scene.loops[0].volume_bits);
    assert_eq!(read.snapshots.len(), 1);
    let (r, s) = (&read.snapshots[0], &scene.snapshots[0]);
    assert_eq!((r.id, r.name.as_str()), (s.id, s.name.as_str()));
    assert_eq!(r.loops.len(), 1);
    assert_eq!((r.loops[0].loop_id, r.loops[0].status), (s.loops[0].loop_id, s.loops[0].status));
    assert_eq!(volume_or(&r.loops[0].loop_volume, 0.0).to_bits(), s.loops[0].loop_volume_bits);
    assert_eq!(volume_or(&r.loops[0].trigger_volume, 0.0).to_bits(), s.loops[0].trigger_volume_bits);
}

#[test]
fn five_decimals_match_format() {
    let mut bits: u32 = 0;
    loop {
        let x = f32::from_bits(bits);
        let mut s = String::new();
        freewheeling::datatypes::push_f32_fixed5(&mut s, bits);
        assert_eq!(s, format!("{:.5}", x), "{bits:#x}");
        match bits.checked_add(104_729) {
            Some(next) => bits = next,
            None => break,
        }
    }
}

#[test]
fn scenes_read_from_nodes() {
    let attr = |n: &str, v: &str| XmlAttribute { namespace: None, name: n.to_string(), value: v.to_string() };
    let node = |id: usize, parent: Option<usize>, name: &str, attributes: Vec<XmlAttribute>| XmlNode {
        id,
        parent,
        is_element: true,
        name: name.to_string(),
        attributes,
    };
    let nodes = vec![
        node(1, Some(0), "scene", vec![]),
        node(2, Some(1), "loop", vec![attr("hash", "CD")]),
        node(3, Some(2), "loop", vec![attr("hash", "nested")]),
    ];
    let s = scene_from_nodes(&nodes, 4).unwrap();
    assert_eq!(s.loops.len(), 1);
    assert_eq!((s.loops[0].hash.as_str(), s.loops[0].loop_id), ("CD", 4));
    let bad = vec![node(1, Some(0), "scenes", vec![])];
    assert_eq!(scene_from_nodes(&bad, 0).unwrap_err(), "scene data has bad format");
}
