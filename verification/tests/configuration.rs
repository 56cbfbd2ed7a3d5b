use freewheeling::blocks::Codec;
use freewheeling::config_model::LayoutConfig;
use freewheeling::runtime_config::{read_runtime_settings, FluidNodeSetting, RuntimeVars};

fn fresh() -> RuntimeVars {
    RuntimeVars {
        numloopids: None,
        maxsnapshots: None,
        library_path: None,
        input_stereo: Vec::new(),
        input_monitoring: Vec::new(),
        stream_inputs: Vec::new(),
        stream_final_mix: false,
        stream_loop_mix: false,
        loop_output_format: Codec::Wav,
        stream_output_format: Codec::Wav,
        midi_outputs: 1,
        resolution: (640, 480),
        video_delay_ms: 50,
        audio_buffer_frames: 128,
        deferred: Vec::new(),
        fonts: Vec::new(),
        display_count: 0,
        fluid_settings: Vec::new(),
        soundfonts: Vec::new(),
        fluid_interpolation: 4,
        fluid_tuning: None,
        fluid_channel: 0,
        fluid_stereo: true,
    }
}

#[test]
fn var_elements_set_the_runtime_settings() {
    let xml = "<fweelin><var numloopids=\"0\" maxsnapshots=\"24\" librarypath=\"~/lib/\" externalaudioinputs=\"SmS\" \
               audioinputmonitoring=\"yNY\" streaminputs=\"n\" streamfinalmix=\"Yes\" streamloopmix=\"no\" \
               loopoutformat=\" ogg \" streamoutformat=\"flac\" midiouts=\"3\" resolution=\"800, 600\" \
               videodelay=\"20\" audiobuffersize=\"-1\" maxplayvol=\"2.5\" midisyncouts=\"1,2\"/>\
               <layout id=\"4\" name=\"loops\" show=\"1\"/><x><layout/></x></fweelin>";
    let mut vars = fresh();
    let mut layouts: Vec<LayoutConfig> = Vec::new();
    read_runtime_settings(xml, 7, &mut vars, &mut layouts).unwrap();
    assert_eq!(vars.numloopids, Some(1));
    assert_eq!(vars.maxsnapshots, Some(24));
    assert_eq!(vars.library_path.as_deref(), Some("~/lib/"));
    assert_eq!(vars.input_stereo, vec![true, false, true]);
    assert_eq!(vars.input_monitoring, vec![true, false, true]);
    assert_eq!(vars.stream_inputs, vec![false, false, false]);
    assert!(vars.stream_final_mix);
    assert!(!vars.stream_loop_mix);
    assert_eq!(vars.loop_output_format, Codec::Vorbis);
    assert_eq!(vars.stream_output_format, Codec::Flac);
    assert_eq!(vars.midi_outputs, 3);
    assert_eq!(vars.resolution, (800, 600));
    assert_eq!(vars.video_delay_ms, 20);
    assert_eq!(vars.audio_buffer_frames, 128);
    assert_eq!(vars.deferred, vec![("maxplayvol".to_string(), "2.5".to_string()), ("midisyncouts".to_string(), "1,2".to_string())]);
    assert_eq!(layouts.len(), 2);
    assert_eq!((layouts[0].interface_id, layouts[0].id, layouts[0].name.as_deref(), layouts[0].show), (7, 4, Some("loops"), true));
    assert_eq!((layouts[1].id, layouts[1].name.as_deref(), layouts[1].show), (0, None, false));
}

#[test]
fn bad_settings_are_reported() {
    let mut vars = fresh();
    let mut layouts: Vec<LayoutConfig> = Vec::new();
    assert_eq!(
        read_runtime_settings("<c><var numloopids=\"x\"/></c>", 0, &mut vars, &mut layouts).unwrap_err(),
        "invalid integer 'x'"
    );
    assert_eq!(
        read_runtime_settings("<c><var loopoutformat=\"mp3\"/></c>", 0, &mut vars, &mut layouts).unwrap_err(),
        "invalid audio output format 'mp3'"
    );
    assert_eq!(
        read_runtime_settings("<c><layout id=\"a\"/></c>", 0, &mut vars, &mut layouts).unwrap_err(),
        "invalid layout id"
    );
    assert!(read_runtime_settings("<c>", 0, &mut vars, &mut layouts).is_err());
}

#[test]
fn fonts_displays_and_synth_settings_are_read() {
    let xml = "<c><font name=\"big\" file=\"a.ttf\" size=\"20\"/><font name=\"small\" file=\"b.ttf\"/><font name=\"x\"/>\
               <display/><x><display type=\"text\"/></x>\
               <fluidsynth param=\"synth.gain\" setnum=\"0.5\"/><fluidsynth param=\"synth.poly\" setint=\"64\"/>\
               <fluidsynth param=\"synth.name\" setstr=\"fw\"/><fluidsynth soundfont=\"piano.sf2\"/>\
               <fluidsynth interpolation=\"7\"/><fluidsynth tuning=\"440\"/><fluidsynth channel=\"40\"/>\
               <fluidsynth stereo=\"0\"/></c>";
    let mut vars = fresh();
    let mut layouts: Vec<LayoutConfig> = Vec::new();
    read_runtime_settings(xml, 0, &mut vars, &mut layouts).unwrap();
    assert_eq!(vars.fonts.len(), 2);
    assert_eq!((vars.fonts[0].name.as_str(), vars.fonts[0].file.as_str(), vars.fonts[0].size), ("big", "a.ttf", 20));
    assert_eq!((vars.fonts[1].name.as_str(), vars.fonts[1].file.as_str(), vars.fonts[1].size), ("small", "b.ttf", 12));
    assert_eq!(vars.display_count, 2);
    assert_eq!(vars.fluid_settings.len(), 3);
    assert!(matches!(&vars.fluid_settings[0], FluidNodeSetting::Number(n, v) if n == "synth.gain" && v == "0.5"));
    assert!(matches!(&vars.fluid_settings[1], FluidNodeSetting::Integer(n, 64) if n == "synth.poly"));
    assert!(matches!(&vars.fluid_settings[2], FluidNodeSetting::Text(n, v) if n == "synth.name" && v == "fw"));
    assert_eq!(vars.soundfonts, vec!["piano.sf2".to_string()]);
    assert_eq!(vars.fluid_interpolation, 7);
    assert_eq!(vars.fluid_tuning.as_deref(), Some("440"));
    assert_eq!(vars.fluid_channel, 15);
    assert!(!vars.fluid_stereo);
    assert!(layouts.is_empty());
}

#[test]
fn bad_font_and_synth_settings_are_reported() {
    let mut vars = fresh();
    let mut layouts: Vec<LayoutConfig> = Vec::new();
    assert_eq!(
        read_runtime_settings("<c><font name=\"a\" file=\"b\" size=\"big\"/></c>", 0, &mut vars, &mut layouts).unwrap_err(),
        "invalid font size"
    );
    assert_eq!(
        read_runtime_settings("<c><fluidsynth channel=\"300\"/></c>", 0, &mut vars, &mut layouts).unwrap_err(),
        "invalid fluidsynth channel"
    );
    assert_eq!(
        read_runtime_settings("<c><fluidsynth param=\"p\" setint=\"1.5\"/></c>", 0, &mut vars, &mut layouts).unwrap_err(),
        "invalid fluidsynth setint"
    );
    vars.display_count = usize::MAX;
    assert_eq!(
        read_runtime_settings("<c><display/></c>", 0, &mut vars, &mut layouts).unwrap_err(),
        "too many configuration nodes"
    );
}

use freewheeling::includes::{doctype_entities, replace_text};
use freewheeling::runtime_config::{interface_ids, read_interfaces};

#[test]
fn new_settings_have_the_defaults() {
    let v = RuntimeVars::new();
    assert_eq!(v.midi_outputs, 1);
    assert_eq!(v.resolution, (640, 480));
    assert_eq!(v.video_delay_ms, 50);
    assert_eq!(v.audio_buffer_frames, 128);
    assert_eq!(v.loop_output_format, Codec::Vorbis);
    assert_eq!(v.stream_output_format, Codec::Vorbis);
    assert_eq!(v.fluid_interpolation, 4);
    assert_eq!(v.fluid_channel, 0);
    assert!(v.fluid_stereo);
    assert_eq!(v.display_count, 0);
    assert!(v.numloopids.is_none() && v.library_path.is_none() && v.fonts.is_empty());
}

#[test]
fn interfaces_are_numbered_by_kind() {
    let xml = "<freewheeling><interface setup=\"a.xml\"/><interface setup=\"b.xml\" switchable=\"0\"/>\
               <interface/><interface setup=\"c.xml\" switchable=\"1\"/></freewheeling>";
    let found = read_interfaces(xml).unwrap();
    assert_eq!(found, vec![("a.xml".to_string(), true), ("b.xml".to_string(), false), ("c.xml".to_string(), true)]);
    let switchable: Vec<bool> = found.iter().map(|e| e.1).collect();
    assert_eq!(interface_ids(&switchable), vec![1, 1000, 2]);
    assert_eq!(interface_ids(&vec![true, false, true, false, false]), vec![1, 1000, 2, 1001, 1002]);
}

#[test]
fn document_type_entities_are_read_and_replaced() {
    let xml = "<?xml version=\"1.0\"?>\n<!DOCTYPE fw [\n  <!ENTITY keys SYSTEM \"keys.xml\">\n<!ENTITY  pad  SYSTEM  \"pad.xml\" >\n  <!ENTITY other \"x\">\n]>\n<freewheeling>&keys;&pad;</freewheeling>";
    let (kept, entities) = doctype_entities(xml);
    assert_eq!(kept, "<?xml version=\"1.0\"?>\n\n<freewheeling>&keys;&pad;</freewheeling>");
    assert_eq!(entities, vec![("keys".to_string(), "keys.xml".to_string()), ("pad".to_string(), "pad.xml".to_string())]);
    assert_eq!(replace_text(&kept, "&keys;", "<k/>"), "<?xml version=\"1.0\"?>\n\n<freewheeling><k/>&pad;</freewheeling>");
    assert_eq!(replace_text("a&k;&k;b&k", "&k;", "X"), "aXXb&k");
    let (plain, none) = doctype_entities("<freewheeling/>");
    assert_eq!(plain, "<freewheeling/>");
    assert!(none.is_empty());
}

use freewheeling::runtime_config::{check_config_root, is_interface_root, ConfigRootError};
use freewheeling::xml::parse_xml_root;

#[test]
fn configuration_roots_are_checked() {
    let ok = parse_xml_root("<freewheeling version=\"0.6\"/>").unwrap();
    assert!(check_config_root(&ok).is_ok());
    let old = parse_xml_root("<freewheeling version=\"0.5\"/>").unwrap();
    assert!(matches!(check_config_root(&old), Err(ConfigRootError::UnsupportedVersion(Some(v))) if v == "0.5"));
    let none = parse_xml_root("<freewheeling/>").unwrap();
    assert!(matches!(check_config_root(&none), Err(ConfigRootError::UnsupportedVersion(None))));
    let other = parse_xml_root("<interface version=\"0.6\"/>").unwrap();
    assert!(matches!(check_config_root(&other), Err(ConfigRootError::NotFreewheeling)));
    assert!(is_interface_root(&other));
    assert!(!is_interface_root(&ok));
}

#[test]
fn interface_ids_are_distinct() {
    let kinds = vec![false, true, true, false, true, false, false, true];
    let ids = interface_ids(&kinds);
    for i in 0..ids.len() {
        for j in (i + 1)..ids.len() {
            assert_ne!(ids[i], ids[j]);
        }
    }
    assert_eq!(ids, vec![1000, 1, 2, 1001, 3, 1002, 1003, 4]);
}

use freewheeling::runtime_config::library_dir;

#[test]
fn library_directory_expands_home_and_drops_trailing_slashes() {
    assert_eq!(library_dir("~/fw-lib//", Some("/home/me")).unwrap(), "/home/me/fw-lib");
    assert_eq!(library_dir("~", Some("/home/me/")).unwrap(), "/home/me");
    assert_eq!(library_dir("/data/lib/", None).unwrap(), "/data/lib");
    assert_eq!(library_dir("~x/lib", None).unwrap(), "~x/lib");
    assert_eq!(library_dir("~/lib", None).unwrap_err(), "path '~/lib' requires HOME");
    assert_eq!(library_dir("///", None).unwrap(), "");
}
