//! The settings that a configuration's `<var>` elements make, and its
//! layouts, fonts, displays and synthesizer settings.  (Patch banks
//! are read by other parts.)

use vstd::prelude::*;
use crate::blocks::Codec;
use crate::config_model::{
    FontConfig, LayoutConfig, codec_named, pair_spec, parse_codec, parse_pair, positive_i32, positive_i32_spec,
};
use crate::includes::{chars_between, chars_of, text_of};
use crate::text::{has_prefix, push_str, starts_with, parse_i32, parse_i32_spec, parse_u32, parse_u32_spec, str_eq, string_from};
use crate::xml::{
    XmlElement, XmlElementValue, XmlAttribute, XmlNode, XmlNodeValue, XmlAttributeValue, attribute_in, attribute_spec, nodes_view, parse_xml_document,
    xml_document,
};

verus! {

/// The settings of `<var>` attributes.  Float settings (play volume,
/// limiter, fader range, Vorbis quality) and the MIDI sync ports are
/// handed on as their attribute name and text, in order, for the
/// application to read.
pub struct RuntimeVars {
    pub numloopids: Option<i32>,
    pub maxsnapshots: Option<i32>,
    pub library_path: Option<String>,
    pub input_stereo: Vec<bool>,
    pub input_monitoring: Vec<bool>,
    pub stream_inputs: Vec<bool>,
    pub stream_final_mix: bool,
    pub stream_loop_mix: bool,
    pub loop_output_format: Codec,
    pub stream_output_format: Codec,
    pub midi_outputs: usize,
    pub resolution: (u32, u32),
    pub video_delay_ms: u32,
    pub audio_buffer_frames: u32,
    pub deferred: Vec<(String, String)>,
    pub fonts: Vec<FontConfig>,
    pub display_count: usize,
    pub fluid_settings: Vec<FluidNodeSetting>,
    pub soundfonts: Vec<String>,
    pub fluid_interpolation: i32,
    pub fluid_tuning: Option<String>,
    pub fluid_channel: u8,
    pub fluid_stereo: bool,
}

/// A synthesizer setting from a `<fluidsynth param=..>` element; a number
/// is handed on as its text.
pub enum FluidNodeSetting {
    Integer(String, i32),
    Number(String, String),
    Text(String, String),
}

/// Plain value of a synthesizer setting.
pub enum FluidSettingValue {
    Integer(Seq<char>, i32),
    Number(Seq<char>, Seq<char>),
    Text(Seq<char>, Seq<char>),
}

pub open spec fn fluid_setting_value(f: FluidNodeSetting) -> FluidSettingValue {
    match f {
        FluidNodeSetting::Integer(n, v) => FluidSettingValue::Integer(n@, v),
        FluidNodeSetting::Number(n, v) => FluidSettingValue::Number(n@, v@),
        FluidNodeSetting::Text(n, v) => FluidSettingValue::Text(n@, v@),
    }
}

/// Plain value of a font: name, file (as written) and size.
pub type FontValue = (Seq<char>, Seq<char>, u32);

pub open spec fn font_value(f: FontConfig) -> FontValue {
    (f.name@, f.file@, f.size)
}

/// Plain value of the settings.
pub struct RuntimeVarsValue {
    pub numloopids: Option<i32>,
    pub maxsnapshots: Option<i32>,
    pub library_path: Option<Seq<char>>,
    pub input_stereo: Seq<bool>,
    pub input_monitoring: Seq<bool>,
    pub stream_inputs: Seq<bool>,
    pub stream_final_mix: bool,
    pub stream_loop_mix: bool,
    pub loop_output_format: Codec,
    pub stream_output_format: Codec,
    pub midi_outputs: usize,
    pub resolution: (u32, u32),
    pub video_delay_ms: u32,
    pub audio_buffer_frames: u32,
    pub deferred: Seq<(Seq<char>, Seq<char>)>,
    pub fonts: Seq<FontValue>,
    pub display_count: usize,
    pub fluid_settings: Seq<FluidSettingValue>,
    pub soundfonts: Seq<Seq<char>>,
    pub fluid_interpolation: i32,
    pub fluid_tuning: Option<Seq<char>>,
    pub fluid_channel: u8,
    pub fluid_stereo: bool,
}

pub open spec fn opt_text(s: Option<String>) -> Option<Seq<char>> {
    match s {
        Some(t) => Some(t@),
        None => None,
    }
}

impl RuntimeVars {
    /// The settings before a configuration is read: one MIDI output, a
    /// 640x480 display after 50 ms, 128-frame audio buffers, Vorbis output,
    /// and a stereo synthesizer on channel 0 with interpolation 4; nothing
    /// else set.
    pub fn new() -> (v: RuntimeVars)
        ensures
            v.value() == (RuntimeVarsValue {
                numloopids: None,
                maxsnapshots: None,
                library_path: None,
                input_stereo: Seq::empty(),
                input_monitoring: Seq::empty(),
                stream_inputs: Seq::empty(),
                stream_final_mix: false,
                stream_loop_mix: false,
                loop_output_format: Codec::Vorbis,
                stream_output_format: Codec::Vorbis,
                midi_outputs: 1,
                resolution: (640, 480),
                video_delay_ms: 50,
                audio_buffer_frames: 128,
                deferred: Seq::empty(),
                fonts: Seq::empty(),
                display_count: 0,
                fluid_settings: Seq::empty(),
                soundfonts: Seq::empty(),
                fluid_interpolation: 4,
                fluid_tuning: None,
                fluid_channel: 0,
                fluid_stereo: true,
            }),
    {
        let v = RuntimeVars {
            numloopids: None,
            maxsnapshots: None,
            library_path: None,
            input_stereo: Vec::new(),
            input_monitoring: Vec::new(),
            stream_inputs: Vec::new(),
            stream_final_mix: false,
            stream_loop_mix: false,
            loop_output_format: Codec::Vorbis,
            stream_output_format: Codec::Vorbis,
            midi_outputs: 1,
            resolution: (640, 480),
            video_delay_ms: 50,
            audio_buffer_frames: 128,
            deferred: Vec::new(),
            fonts: Vec::new(),
            display_count: 0,
            fluid_settings: Vec::new(),
            soundfonts: Vec::new(),
            fluid_interpolation: 4,
            fluid_tuning: None,
            fluid_channel: 0,
            fluid_stereo: true,
        };
        assert(v.value().deferred =~= Seq::empty());
        assert(v.value().fonts =~= Seq::empty());
        assert(v.value().fluid_settings =~= Seq::empty());
        assert(v.value().soundfonts =~= Seq::empty());
        v
    }

    pub open spec fn value(&self) -> RuntimeVarsValue {
        RuntimeVarsValue {
            numloopids: self.numloopids,
            maxsnapshots: self.maxsnapshots,
            library_path: opt_text(self.library_path),
            input_stereo: self.input_stereo@,
            input_monitoring: self.input_monitoring@,
            stream_inputs: self.stream_inputs@,
            stream_final_mix: self.stream_final_mix,
            stream_loop_mix: self.stream_loop_mix,
            loop_output_format: self.loop_output_format,
            stream_output_format: self.stream_output_format,
            midi_outputs: self.midi_outputs,
            resolution: self.resolution,
            video_delay_ms: self.video_delay_ms,
            audio_buffer_frames: self.audio_buffer_frames,
            deferred: self.deferred@.map_values(|d: (String, String)| (d.0@, d.1@)),
            fonts: self.fonts@.map_values(|f: FontConfig| font_value(f)),
            display_count: self.display_count,
            fluid_settings: self.fluid_settings@.map_values(|f: FluidNodeSetting| fluid_setting_value(f)),
            soundfonts: self.soundfonts@.map_values(|t: String| t@),
            fluid_interpolation: self.fluid_interpolation,
            fluid_tuning: opt_text(self.fluid_tuning),
            fluid_channel: self.fluid_channel,
            fluid_stereo: self.fluid_stereo,
        }
    }
}

/// `S` or `s`: a stereo input.
pub open spec fn stereo_flags(b: Seq<u8>) -> Seq<bool> {
    Seq::new(b.len(), |i: int| b[i] == 83 || b[i] == 115)
}

/// `Y` or `y` at each of the first `n` places (false past the text).
pub open spec fn yes_flags(b: Seq<u8>, n: nat) -> Seq<bool> {
    Seq::new(n, |i: int| i < b.len() && (b[i] == 89 || b[i] == 121))
}

/// The text begins with `Y` or `y`.
pub open spec fn starts_yes(b: Seq<u8>) -> bool {
    b.len() > 0 && (b[0] == 89 || b[0] == 121)
}

/// The attributes whose values are handed on as text.
pub open spec fn deferred_name(name: Seq<char>) -> bool {
    name == "maxplayvol"@ || name == "maxlimitergain"@ || name == "limiterthreshhold"@ || name
        == "limiterreleaserate"@ || name == "fadermaxdb"@ || name == "oggquality"@ || name == "midisyncouts"@
}

/// The settings after the attribute `name="value"` of a `<var>` element,
/// or the error it gives.  Unknown attributes change nothing.
pub open spec fn var_attribute_spec(v: RuntimeVarsValue, name: Seq<char>, value: Seq<char>) -> Result<
    RuntimeVarsValue,
    Seq<char>,
> {
    let b = encode_utf8_of(value);
    if name == "numloopids"@ {
        match positive_i32_spec(value, 1) {
            Ok(n) => Ok(RuntimeVarsValue { numloopids: Some(n), ..v }),
            Err(e) => Err(e),
        }
    } else if name == "maxsnapshots"@ {
        match positive_i32_spec(value, 1) {
            Ok(n) => Ok(RuntimeVarsValue { maxsnapshots: Some(n), ..v }),
            Err(e) => Err(e),
        }
    } else if name == "librarypath"@ {
        Ok(RuntimeVarsValue { library_path: Some(value), ..v })
    } else if name == "externalaudioinputs"@ {
        Ok(
            RuntimeVarsValue {
                input_stereo: stereo_flags(b),
                input_monitoring: Seq::new(b.len(), |i: int| false),
                stream_inputs: Seq::new(b.len(), |i: int| false),
                ..v
            },
        )
    } else if name == "audioinputmonitoring"@ {
        Ok(RuntimeVarsValue { input_monitoring: yes_flags(b, v.input_stereo.len()), ..v })
    } else if name == "streaminputs"@ {
        Ok(RuntimeVarsValue { stream_inputs: yes_flags(b, v.input_stereo.len()), ..v })
    } else if name == "streamfinalmix"@ {
        Ok(RuntimeVarsValue { stream_final_mix: starts_yes(b), ..v })
    } else if name == "streamloopmix"@ {
        Ok(RuntimeVarsValue { stream_loop_mix: starts_yes(b), ..v })
    } else if name == "loopoutformat"@ {
        match codec_named(value) {
            Ok(c) => Ok(RuntimeVarsValue { loop_output_format: c, ..v }),
            Err(e) => Err(e),
        }
    } else if name == "streamoutformat"@ {
        match codec_named(value) {
            Ok(c) => Ok(RuntimeVarsValue { stream_output_format: c, ..v }),
            Err(e) => Err(e),
        }
    } else if name == "midiouts"@ {
        match positive_i32_spec(value, 1) {
            Ok(n) => Ok(RuntimeVarsValue { midi_outputs: n as usize, ..v }),
            Err(e) => Err(e),
        }
    } else if name == "resolution"@ {
        match pair_spec(value) {
            Ok(p) => Ok(RuntimeVarsValue { resolution: (p.0 as u32, p.1 as u32), ..v }),
            Err(e) => Err(e),
        }
    } else if name == "videodelay"@ {
        match parse_u32_spec(value) {
            Some(d) => Ok(RuntimeVarsValue { video_delay_ms: d, ..v }),
            None => Err("invalid videodelay"@),
        }
    } else if name == "audiobuffersize"@ {
        match parse_i32_spec(value) {
            Some(n) => Ok(if n > 0 { RuntimeVarsValue { audio_buffer_frames: n as u32, ..v } } else { v }),
            None => Err("invalid audiobuffersize"@),
        }
    } else if deferred_name(name) {
        Ok(RuntimeVarsValue { deferred: v.deferred.push((name, value)), ..v })
    } else {
        Ok(v)
    }
}

/// The UTF-8 bytes of a text.
pub open spec fn encode_utf8_of(s: Seq<char>) -> Seq<u8> {
    vstd::utf8::encode_utf8(s)
}

fn copy_text(s: &str) -> (r: String)
    ensures
        r@ == s@,
{
    string_from(s)
}

impl RuntimeVars {
    /// Applies the attribute `name="value"` of a `<var>` element (see
    /// `var_attribute_spec`).
    pub fn apply_var_attribute(&mut self, name: &str, value: &str) -> (r: Result<(), String>)
        ensures
            match var_attribute_spec(old(self).value(), name@, value@) {
                Ok(v) => r is Ok && final(self).value() == v,
                Err(e) => r matches Err(m) && m@ == e,
            },
            final(self).display_count == old(self).display_count,
    {
        let b = value.as_bytes();
        if str_eq(name, "numloopids") {
            let n = positive_i32(value, 1)?;
            self.numloopids = Some(n);
        } else if str_eq(name, "maxsnapshots") {
            let n = positive_i32(value, 1)?;
            self.maxsnapshots = Some(n);
        } else if str_eq(name, "librarypath") {
            self.library_path = Some(copy_text(value));
        } else if str_eq(name, "externalaudioinputs") {
            let mut stereo: Vec<bool> = Vec::new();
            let mut off: Vec<bool> = Vec::new();
            let mut i: usize = 0;
            while i < b.len()
                invariant
                    i <= b@.len(),
                    stereo@ == stereo_flags(b@).take(i as int),
                    off@ == Seq::new(i as nat, |j: int| false),
                decreases b@.len() - i,
            {
                stereo.push(b[i] == 83 || b[i] == 115);
                off.push(false);
                assert(stereo@ =~= stereo_flags(b@).take(i + 1));
                assert(off@ =~= Seq::new((i + 1) as nat, |j: int| false));
                i = i + 1;
            }
            assert(stereo@ =~= stereo_flags(b@));
            self.input_stereo = stereo;
            self.input_monitoring = off.clone();
            self.stream_inputs = off;
        } else if str_eq(name, "audioinputmonitoring") {
            self.input_monitoring = yes_vec(b, self.input_stereo.len());
        } else if str_eq(name, "streaminputs") {
            self.stream_inputs = yes_vec(b, self.input_stereo.len());
        } else if str_eq(name, "streamfinalmix") {
            self.stream_final_mix = b.len() > 0 && (b[0] == 89 || b[0] == 121);
        } else if str_eq(name, "streamloopmix") {
            self.stream_loop_mix = b.len() > 0 && (b[0] == 89 || b[0] == 121);
        } else if str_eq(name, "loopoutformat") {
            self.loop_output_format = parse_codec(value)?;
        } else if str_eq(name, "streamoutformat") {
            self.stream_output_format = parse_codec(value)?;
        } else if str_eq(name, "midiouts") {
            let n = positive_i32(value, 1)?;
            self.midi_outputs = n as usize;
        } else if str_eq(name, "resolution") {
            let p = parse_pair(value)?;
            self.resolution = (p.0 as u32, p.1 as u32);
        } else if str_eq(name, "videodelay") {
            match parse_u32(value) {
                Some(d) => self.video_delay_ms = d,
                None => return Err(string_from("invalid videodelay")),
            }
        } else if str_eq(name, "audiobuffersize") {
            match parse_i32(value) {
                Some(n) => {
                    if n > 0 {
                        self.audio_buffer_frames = n as u32;
                    }
                },
                None => return Err(string_from("invalid audiobuffersize")),
            }
        } else if str_eq(name, "maxplayvol") || str_eq(name, "maxlimitergain") || str_eq(name, "limiterthreshhold")
            || str_eq(name, "limiterreleaserate") || str_eq(name, "fadermaxdb") || str_eq(name, "oggquality")
            || str_eq(name, "midisyncouts") {
            let ghost before = self.deferred@;
            self.deferred.push((copy_text(name), copy_text(value)));
            assert(self.deferred@.map_values(|d: (String, String)| (d.0@, d.1@)) =~= before.map_values(
                |d: (String, String)| (d.0@, d.1@),
            ).push((name@, value@)));
        }
        Ok(())
    }
}

fn yes_vec(b: &[u8], n: usize) -> (r: Vec<bool>)
    ensures
        r@ == yes_flags(b@, n as nat),
{
    let mut r: Vec<bool> = Vec::new();
    let mut i: usize = 0;
    while i < n
        invariant
            i <= n,
            r@ == yes_flags(b@, n as nat).take(i as int),
        decreases n - i,
    {
        r.push(i < b.len() && (b[i] == 89 || b[i] == 121));
        assert(r@ =~= yes_flags(b@, n as nat).take(i + 1));
        i = i + 1;
    }
    assert(r@ =~= yes_flags(b@, n as nat));
    r
}

/// The settings after the attributes `attrs[..j]` of a `<var>` element,
/// in order; the first error stops.
pub open spec fn var_attributes_upto(v: RuntimeVarsValue, attrs: Seq<XmlAttributeValue>, j: nat) -> Result<
    RuntimeVarsValue,
    Seq<char>,
>
    decreases j,
{
    if j == 0 {
        Ok(v)
    } else {
        match var_attributes_upto(v, attrs, (j - 1) as nat) {
            Ok(w) => var_attribute_spec(w, attrs[j - 1].1, attrs[j - 1].2),
            Err(e) => Err(e),
        }
    }
}

/// Plain value of a layout: interface, id, name, shown.
pub type LayoutValue = (i32, i32, Option<Seq<char>>, bool);

pub open spec fn layout_value(l: LayoutConfig) -> LayoutValue {
    (l.interface_id, l.id, opt_text(l.name), l.show)
}

/// The layout that a `<layout>` element of interface `iid` describes: its
/// `id` (0 when absent), name, and whether `show` is other than `0`.
pub open spec fn layout_spec(iid: i32, attrs: Seq<XmlAttributeValue>) -> Result<LayoutValue, Seq<char>> {
    let id_text = match attribute_spec(attrs, "id"@) {
        Some(t) => t,
        None => "0"@,
    };
    match parse_i32_spec(id_text) {
        None => Err("invalid layout id"@),
        Some(id) => Ok(
            (
                iid,
                id,
                attribute_spec(attrs, "name"@),
                match attribute_spec(attrs, "show"@) {
                    Some(t) => t != "0"@,
                    None => false,
                },
            ),
        ),
    }
}

/// The settings after a `<font>` element: a font with both a name and a
/// file is added, its size 12 unless given.
pub open spec fn font_spec(v: RuntimeVarsValue, attrs: Seq<XmlAttributeValue>) -> Result<RuntimeVarsValue, Seq<char>> {
    match (attribute_spec(attrs, "name"@), attribute_spec(attrs, "file"@)) {
        (Some(n), Some(f)) => {
            let size_text = match attribute_spec(attrs, "size"@) {
                Some(t) => t,
                None => "12"@,
            };
            match parse_u32_spec(size_text) {
                Some(z) => Ok(RuntimeVarsValue { fonts: v.fonts.push((n, f, z)), ..v }),
                None => Err("invalid font size"@),
            }
        },
        _ => Ok(v),
    }
}

/// What `parse::<u8>` makes of a text.
pub open spec fn parse_u8_spec(t: Seq<char>) -> Option<u8> {
    match parse_u32_spec(t) {
        Some(x) => if x <= 255 { Some(x as u8) } else { None },
        None => None,
    }
}

/// The settings after a `<fluidsynth>` element: a `param` with `setint`,
/// `setnum` or `setstr` adds a setting; otherwise the first of
/// `soundfont`, `interpolation`, `tuning`, `channel` (at most 15) and
/// `stereo` that is present is read.
pub open spec fn fluid_spec(v: RuntimeVarsValue, attrs: Seq<XmlAttributeValue>) -> Result<RuntimeVarsValue, Seq<char>> {
    match attribute_spec(attrs, "param"@) {
        Some(name) => if let Some(t) = attribute_spec(attrs, "setint"@) {
            match parse_i32_spec(t) {
                Some(x) => Ok(RuntimeVarsValue { fluid_settings: v.fluid_settings.push(FluidSettingValue::Integer(name, x)), ..v }),
                None => Err("invalid fluidsynth setint"@),
            }
        } else if let Some(t) = attribute_spec(attrs, "setnum"@) {
            Ok(RuntimeVarsValue { fluid_settings: v.fluid_settings.push(FluidSettingValue::Number(name, t)), ..v })
        } else if let Some(t) = attribute_spec(attrs, "setstr"@) {
            Ok(RuntimeVarsValue { fluid_settings: v.fluid_settings.push(FluidSettingValue::Text(name, t)), ..v })
        } else {
            Ok(v)
        },
        None => if let Some(t) = attribute_spec(attrs, "soundfont"@) {
            Ok(RuntimeVarsValue { soundfonts: v.soundfonts.push(t), ..v })
        } else if let Some(t) = attribute_spec(attrs, "interpolation"@) {
            match parse_i32_spec(t) {
                Some(x) => Ok(RuntimeVarsValue { fluid_interpolation: x, ..v }),
                None => Err("invalid fluidsynth interpolation"@),
            }
        } else if let Some(t) = attribute_spec(attrs, "tuning"@) {
            Ok(RuntimeVarsValue { fluid_tuning: Some(t), ..v })
        } else if let Some(t) = attribute_spec(attrs, "channel"@) {
            match parse_u8_spec(t) {
                Some(c) => Ok(RuntimeVarsValue { fluid_channel: if c > 15 { 15 } else { c }, ..v }),
                None => Err("invalid fluidsynth channel"@),
            }
        } else if let Some(t) = attribute_spec(attrs, "stereo"@) {
            Ok(RuntimeVarsValue { fluid_stereo: t != "0"@, ..v })
        } else {
            Ok(v)
        },
    }
}

/// The settings after one element of the document (a `<var>`, `<font>`,
/// `<display>` or `<fluidsynth>` element; others change nothing here).
pub open spec fn settings_element_spec(v: RuntimeVarsValue, n: XmlNodeValue) -> Result<RuntimeVarsValue, Seq<char>> {
    if n.3 == "var"@ {
        var_attributes_upto(v, n.4, n.4.len())
    } else if n.3 == "font"@ {
        font_spec(v, n.4)
    } else if n.3 == "display"@ {
        Ok(RuntimeVarsValue { display_count: (v.display_count + 1) as usize, ..v })
    } else if n.3 == "fluidsynth"@ {
        fluid_spec(v, n.4)
    } else {
        Ok(v)
    }
}

/// The settings and layouts after the first `k` nodes: each `<var>`
/// element applies its attributes, each `<layout>` element adds a layout.
pub open spec fn runtime_upto(
    nodes: Seq<XmlNodeValue>,
    iid: i32,
    start: (RuntimeVarsValue, Seq<LayoutValue>),
    k: nat,
) -> Result<(RuntimeVarsValue, Seq<LayoutValue>), Seq<char>>
    decreases k,
{
    if k == 0 {
        Ok(start)
    } else {
        match runtime_upto(nodes, iid, start, (k - 1) as nat) {
            Err(e) => Err(e),
            Ok(st) => {
                let n = nodes[k - 1];
                if !n.2 {
                    Ok(st)
                } else if n.3 == "layout"@ {
                    match layout_spec(iid, n.4) {
                        Ok(l) => Ok((st.0, st.1.push(l))),
                        Err(e) => Err(e),
                    }
                } else {
                    match settings_element_spec(st.0, n) {
                        Ok(w) => Ok((w, st.1)),
                        Err(e) => Err(e),
                    }
                }
            },
        }
    }
}

/// Once reading fails, it stays failed.
proof fn lemma_runtime_error_stays(
    nodes: Seq<XmlNodeValue>,
    iid: i32,
    start: (RuntimeVarsValue, Seq<LayoutValue>),
    k: nat,
    m: nat,
)
    requires
        k <= m,
        runtime_upto(nodes, iid, start, k) is Err,
    ensures
        runtime_upto(nodes, iid, start, m) == runtime_upto(nodes, iid, start, k),
    decreases m - k,
{
    if k < m {
        lemma_runtime_error_stays(nodes, iid, start, k, (m - 1) as nat);
    }
}

fn layout_of(iid: i32, attributes: &Vec<XmlAttribute>) -> (r: Result<LayoutConfig, String>)
    ensures
        match layout_spec(iid, attributes@.map_values(|a: XmlAttribute| a@)) {
            Ok(l) => r matches Ok(c) && layout_value(c) == l,
            Err(e) => r matches Err(m) && m@ == e,
        },
{
    let id = match parse_i32(match attribute_in(attributes, "id") {
        Some(t) => t,
        None => "0",
    }) {
        Some(id) => id,
        None => return Err(string_from("invalid layout id")),
    };
    let name = match attribute_in(attributes, "name") {
        Some(t) => Some(copy_text(t)),
        None => None,
    };
    let show = match attribute_in(attributes, "show") {
        Some(t) => !str_eq(t, "0"),
        None => false,
    };
    Ok(LayoutConfig { interface_id: iid, id, name, show })
}

impl RuntimeVars {
    /// Applies the attributes of a `<var>` element, in order.
    fn apply_var_element(&mut self, attributes: &Vec<XmlAttribute>) -> (r: Result<(), String>)
        ensures
            match var_attributes_upto(
                old(self).value(),
                attributes@.map_values(|a: XmlAttribute| a@),
                attributes@.len(),
            ) {
                Ok(v) => r is Ok && final(self).value() == v,
                Err(e) => r matches Err(m) && m@ == e,
            },
            final(self).display_count == old(self).display_count,
    {
        let ghost attrs = attributes@.map_values(|a: XmlAttribute| a@);
        let ghost v0 = self.value();
        let mut j: usize = 0;
        while j < attributes.len()
            invariant
                j <= attributes@.len(),
                attrs == attributes@.map_values(|a: XmlAttribute| a@),
                var_attributes_upto(v0, attrs, j as nat) == Ok::<RuntimeVarsValue, Seq<char>>(self.value()),
                v0 == old(self).value(),
                self.display_count == old(self).display_count,
            decreases attributes@.len() - j,
        {
            let a = &attributes[j];
            assert(attrs[j as int] == a@);
            match self.apply_var_attribute(a.name.as_str(), a.value.as_str()) {
                Ok(()) => {},
                Err(e) => {
                    proof {
                        lemma_var_error_stays(v0, attrs, (j + 1) as nat, attributes@.len());
                    }
                    return Err(e);
                },
            }
            j = j + 1;
        }
        Ok(())
    }
}

proof fn lemma_var_error_stays(v: RuntimeVarsValue, attrs: Seq<XmlAttributeValue>, k: nat, m: nat)
    requires
        k <= m,
        var_attributes_upto(v, attrs, k) is Err,
    ensures
        var_attributes_upto(v, attrs, m) == var_attributes_upto(v, attrs, k),
    decreases m - k,
{
    if k < m {
        lemma_var_error_stays(v, attrs, k, (m - 1) as nat);
    }
}

fn font_of(attributes: &Vec<XmlAttribute>) -> (r: Result<Option<FontConfig>, String>)
    ensures
        ({
            let attrs = attributes@.map_values(|a: XmlAttribute| a@);
            match (attribute_spec(attrs, "name"@), attribute_spec(attrs, "file"@)) {
                (Some(n), Some(f)) => match parse_u32_spec(
                    match attribute_spec(attrs, "size"@) {
                        Some(t) => t,
                        None => "12"@,
                    },
                ) {
                    Some(z) => r matches Ok(Some(c)) && font_value(c) == (n, f, z),
                    None => r matches Err(m) && m@ == "invalid font size"@,
                },
                _ => r matches Ok(None),
            }
        }),
{
    let name = attribute_in(attributes, "name");
    let file = attribute_in(attributes, "file");
    match (name, file) {
        (Some(n), Some(f)) => {
            let size_text = match attribute_in(attributes, "size") {
                Some(t) => t,
                None => "12",
            };
            match parse_u32(size_text) {
                Some(z) => Ok(Some(FontConfig { name: copy_text(n), file: copy_text(f), size: z })),
                None => Err(string_from("invalid font size")),
            }
        },
        _ => Ok(None),
    }
}

fn parse_u8(t: &str) -> (r: Option<u8>)
    ensures
        r == parse_u8_spec(t@),
{
    match parse_u32(t) {
        Some(x) => if x <= 255 { Some(x as u8) } else { None },
        None => None,
    }
}

impl RuntimeVars {
    fn apply_fluid_element(&mut self, attributes: &Vec<XmlAttribute>) -> (r: Result<(), String>)
        ensures
            match fluid_spec(old(self).value(), attributes@.map_values(|a: XmlAttribute| a@)) {
                Ok(v) => r is Ok && final(self).value() == v,
                Err(e) => r matches Err(m) && m@ == e,
            },
            final(self).display_count == old(self).display_count,
    {
        let ghost before = self.value();
        match attribute_in(attributes, "param") {
            Some(name) => {
                let ghost fs = self.fluid_settings@;
                let setting = if let Some(t) = attribute_in(attributes, "setint") {
                    match parse_i32(t) {
                        Some(x) => FluidNodeSetting::Integer(copy_text(name), x),
                        None => return Err(string_from("invalid fluidsynth setint")),
                    }
                } else if let Some(t) = attribute_in(attributes, "setnum") {
                    FluidNodeSetting::Number(copy_text(name), copy_text(t))
                } else if let Some(t) = attribute_in(attributes, "setstr") {
                    FluidNodeSetting::Text(copy_text(name), copy_text(t))
                } else {
                    return Ok(());
                };
                self.fluid_settings.push(setting);
                assert(self.fluid_settings@.map_values(|f: FluidNodeSetting| fluid_setting_value(f)) =~= fs.map_values(
                    |f: FluidNodeSetting| fluid_setting_value(f),
                ).push(fluid_setting_value(setting)));
            },
            None => {
                if let Some(t) = attribute_in(attributes, "soundfont") {
                    let ghost sf = self.soundfonts@;
                    let c = copy_text(t);
                    self.soundfonts.push(c);
                    assert(self.soundfonts@.map_values(|x: String| x@) =~= sf.map_values(|x: String| x@).push(c@));
                } else if let Some(t) = attribute_in(attributes, "interpolation") {
                    match parse_i32(t) {
                        Some(x) => self.fluid_interpolation = x,
                        None => return Err(string_from("invalid fluidsynth interpolation")),
                    }
                } else if let Some(t) = attribute_in(attributes, "tuning") {
                    self.fluid_tuning = Some(copy_text(t));
                } else if let Some(t) = attribute_in(attributes, "channel") {
                    match parse_u8(t) {
                        Some(c) => self.fluid_channel = if c > 15 { 15 } else { c },
                        None => return Err(string_from("invalid fluidsynth channel")),
                    }
                } else if let Some(t) = attribute_in(attributes, "stereo") {
                    self.fluid_stereo = !str_eq(t, "0");
                }
            },
        }
        Ok(())
    }

    /// Applies one element other than a layout (see
    /// `settings_element_spec`).
    fn apply_settings_element(&mut self, n: &XmlNode) -> (r: Result<(), String>)
        requires
            old(self).display_count < usize::MAX,
        ensures
            match settings_element_spec(old(self).value(), n@) {
                Ok(v) => r is Ok && final(self).value() == v,
                Err(e) => r matches Err(m) && m@ == e,
            },
            final(self).display_count <= old(self).display_count + 1,
    {
        if str_eq(n.name.as_str(), "var") {
            let r = self.apply_var_element(&n.attributes);
            proof {
                lemma_var_display_kept(old(self).value(), n@.4, n@.4.len());
            }
            r
        } else if str_eq(n.name.as_str(), "font") {
            match font_of(&n.attributes)? {
                Some(f) => {
                    let ghost fs = self.fonts@;
                    self.fonts.push(f);
                    assert(self.fonts@.map_values(|f: FontConfig| font_value(f)) =~= fs.map_values(
                        |f: FontConfig| font_value(f),
                    ).push(font_value(f)));
                },
                None => {},
            }
            Ok(())
        } else if str_eq(n.name.as_str(), "display") {
            self.display_count = self.display_count + 1;
            Ok(())
        } else if str_eq(n.name.as_str(), "fluidsynth") {
            self.apply_fluid_element(&n.attributes)
        } else {
            Ok(())
        }
    }
}

/// `<var>` attributes leave the display count as it was.
proof fn lemma_var_display_kept(v: RuntimeVarsValue, attrs: Seq<XmlAttributeValue>, j: nat)
    ensures
        var_attributes_upto(v, attrs, j) matches Ok(w) ==> w.display_count == v.display_count,
    decreases j,
{
    if j > 0 {
        lemma_var_display_kept(v, attrs, (j - 1) as nat);
    }
}

/// Reads the `<var>` and `<layout>` elements of a configuration document
/// of interface `iid` (its nodes, root element first), in document order:
/// the settings into `vars`, the layouts onto `layouts`.  The first error
/// stops reading.
pub fn apply_runtime_settings(
    vars: &mut RuntimeVars,
    layouts: &mut Vec<LayoutConfig>,
    iid: i32,
    nodes: &Vec<XmlNode>,
) -> (r: Result<(), String>)
    requires
        old(vars).display_count + nodes@.len() <= usize::MAX,
    ensures
        match runtime_upto(
            nodes_view(nodes@),
            iid,
            (old(vars).value(), old(layouts)@.map_values(|l: LayoutConfig| layout_value(l))),
            nodes@.len(),
        ) {
            Ok(st) => r is Ok && final(vars).value() == st.0 && final(layouts)@.map_values(
                |l: LayoutConfig| layout_value(l),
            ) == st.1,
            Err(e) => r matches Err(m) && m@ == e,
        },
{
    let ghost doc = nodes_view(nodes@);
    let ghost start = (vars.value(), layouts@.map_values(|l: LayoutConfig| layout_value(l)));
    let mut k: usize = 0;
    while k < nodes.len()
        invariant
            k <= nodes@.len(),
            doc == nodes_view(nodes@),
            start == (old(vars).value(), old(layouts)@.map_values(|l: LayoutConfig| layout_value(l))),
            runtime_upto(doc, iid, start, k as nat) == Ok::<(RuntimeVarsValue, Seq<LayoutValue>), Seq<char>>(
                (vars.value(), layouts@.map_values(|l: LayoutConfig| layout_value(l))),
            ),
            vars.display_count <= old(vars).display_count + k,
            old(vars).display_count + nodes@.len() <= usize::MAX,
        decreases nodes@.len() - k,
    {
        let n = &nodes[k];
        assert(doc[k as int] == n@);
        if n.is_element && !str_eq(n.name.as_str(), "layout") {
            match vars.apply_settings_element(n) {
                Ok(()) => {},
                Err(e) => {
                    proof {
                        lemma_runtime_error_stays(doc, iid, start, (k + 1) as nat, nodes@.len());
                    }
                    return Err(e);
                },
            }
        } else if n.is_element && str_eq(n.name.as_str(), "layout") {
            match layout_of(iid, &n.attributes) {
                Ok(l) => {
                    let ghost before = layouts@;
                    layouts.push(l);
                    assert(layouts@.map_values(|l: LayoutConfig| layout_value(l)) =~= before.map_values(
                        |l: LayoutConfig| layout_value(l),
                    ).push(layout_value(l)));
                },
                Err(e) => {
                    proof {
                        lemma_runtime_error_stays(doc, iid, start, (k + 1) as nat, nodes@.len());
                    }
                    return Err(e);
                },
            }
        }
        k = k + 1;
    }
    Ok(())
}

/// Reads the `<var>` and `<layout>` elements of the configuration text
/// `xml` (see `apply_runtime_settings`); text that does not parse gives
/// the parser's error and changes nothing.
pub fn read_runtime_settings(
    xml: &str,
    iid: i32,
    vars: &mut RuntimeVars,
    layouts: &mut Vec<LayoutConfig>,
) -> (r: Result<(), String>)
    ensures
        match xml_document(xml@) {
            Err(e) => (r matches Err(m) && m@ == e) && final(vars).value() == old(vars).value()
                && final(layouts)@ == old(layouts)@,
            Ok(doc) => if old(vars).display_count + doc.len() > usize::MAX {
                (r matches Err(m) && m@ == "too many configuration nodes"@) && final(vars).value() == old(vars).value()
                    && final(layouts)@ == old(layouts)@
            } else {
                match runtime_upto(
                doc,
                iid,
                (old(vars).value(), old(layouts)@.map_values(|l: LayoutConfig| layout_value(l))),
                doc.len(),
            ) {
                Ok(st) => r is Ok && final(vars).value() == st.0 && final(layouts)@.map_values(
                    |l: LayoutConfig| layout_value(l),
                ) == st.1,
                Err(e) => r matches Err(m) && m@ == e,
                }
            },
        },
{
    let nodes = parse_xml_document(xml)?;
    if vars.display_count > usize::MAX - nodes.len() {
        return Err(string_from("too many configuration nodes"));
    }
    apply_runtime_settings(vars, layouts, iid, &nodes)
}

/// How many of the first `k` interfaces can be switched to.
pub open spec fn switchable_before(switchable: Seq<bool>, k: int) -> int
    decreases k,
{
    if k <= 0 {
        0
    } else {
        switchable_before(switchable, k - 1) + if switchable[k - 1] { 1int } else { 0int }
    }
}

/// The id of interface `i`: interfaces that can be switched to are
/// numbered from 1, the others from 1000, each in document order.
pub open spec fn interface_id(switchable: Seq<bool>, i: int) -> int {
    if switchable[i] {
        1 + switchable_before(switchable, i)
    } else {
        1000 + (i - switchable_before(switchable, i))
    }
}

proof fn lemma_switchable_before_bounds(switchable: Seq<bool>, k: int)
    ensures
        0 <= k ==> 0 <= switchable_before(switchable, k) <= k,
    decreases k,
{
    if k > 0 {
        lemma_switchable_before_bounds(switchable, k - 1);
    }
}

/// The ids of the interfaces a configuration includes, given whether each
/// can be switched to (see `interface_id`).
pub fn interface_ids(switchable: &Vec<bool>) -> (r: Vec<i32>)
    requires
        switchable@.len() + 1000 <= i32::MAX,
    ensures
        r@.len() == switchable@.len(),
        forall|i: int| 0 <= i < r@.len() ==> #[trigger] r@[i] == interface_id(switchable@, i),
{
    let mut r: Vec<i32> = Vec::new();
    let mut next_switch: i32 = 1;
    let mut next_fixed: i32 = 1000;
    let mut k: usize = 0;
    while k < switchable.len()
        invariant
            k <= switchable@.len(),
            switchable@.len() + 1000 <= i32::MAX,
            r@.len() == k,
            next_switch == 1 + switchable_before(switchable@, k as int),
            next_fixed == 1000 + (k - switchable_before(switchable@, k as int)),
            forall|i: int| 0 <= i < k ==> #[trigger] r@[i] == interface_id(switchable@, i),
        decreases switchable@.len() - k,
    {
        proof {
            lemma_switchable_before_bounds(switchable@, k as int);
        }
        if switchable[k] {
            r.push(next_switch);
            next_switch = next_switch + 1;
        } else {
            r.push(next_fixed);
            next_fixed = next_fixed + 1;
        }
        k = k + 1;
    }
    r
}

/// The interfaces a configuration includes, in document order: each
/// `<interface>` element with a `setup` file, and whether it can be
/// switched to (unless `switchable="0"`).
pub open spec fn interfaces_upto(nodes: Seq<XmlNodeValue>, k: nat) -> Seq<(Seq<char>, bool)>
    decreases k,
{
    if k == 0 {
        Seq::empty()
    } else {
        let prev = interfaces_upto(nodes, (k - 1) as nat);
        let n = nodes[k - 1];
        if n.2 && n.3 == "interface"@ {
            match attribute_spec(n.4, "setup"@) {
                Some(setup) => prev.push((setup, attribute_spec(n.4, "switchable"@) != Some("0"@))),
                None => prev,
            }
        } else {
            prev
        }
    }
}

/// The interfaces of a configuration document (its nodes; see
/// `interfaces_upto`): each one's setup file and whether it can be
/// switched to.
pub fn config_interfaces(nodes: &Vec<XmlNode>) -> (r: Vec<(String, bool)>)
    ensures
        r@.map_values(|e: (String, bool)| (e.0@, e.1)) == interfaces_upto(nodes_view(nodes@), nodes@.len()),
{
    let ghost doc = nodes_view(nodes@);
    let mut r: Vec<(String, bool)> = Vec::new();
    let mut k: usize = 0;
    while k < nodes.len()
        invariant
            k <= nodes@.len(),
            doc == nodes_view(nodes@),
            r@.map_values(|e: (String, bool)| (e.0@, e.1)) == interfaces_upto(doc, k as nat),
        decreases nodes@.len() - k,
    {
        let n = &nodes[k];
        assert(doc[k as int] == n@);
        if n.is_element && str_eq(n.name.as_str(), "interface") {
            match attribute_in(&n.attributes, "setup") {
                Some(setup) => {
                    let switchable = match attribute_in(&n.attributes, "switchable") {
                        Some(v) => !str_eq(v, "0"),
                        None => true,
                    };
                    let ghost before = r@;
                    let e = (copy_text(setup), switchable);
                    r.push(e);
                    assert(r@.map_values(|e: (String, bool)| (e.0@, e.1)) =~= before.map_values(
                        |e: (String, bool)| (e.0@, e.1),
                    ).push((e.0@, e.1)));
                },
                None => {},
            }
        }
        k = k + 1;
    }
    r
}

/// The interfaces that the configuration text `xml` includes (see
/// `interfaces_upto`); text that does not parse gives the parser's error.
pub fn read_interfaces(xml: &str) -> (r: Result<Vec<(String, bool)>, String>)
    ensures
        match xml_document(xml@) {
            Err(e) => r matches Err(m) && m@ == e,
            Ok(doc) => r matches Ok(v) && v@.map_values(|e: (String, bool)| (e.0@, e.1)) == interfaces_upto(
                doc,
                doc.len(),
            ),
        },
{
    let nodes = parse_xml_document(xml)?;
    Ok(config_interfaces(&nodes))
}

/// Why a configuration's root element is refused: it is not
/// `<freewheeling>`, or its `version` (given as found) is not `0.6`.
pub enum ConfigRootError {
    NotFreewheeling,
    UnsupportedVersion(Option<String>),
}

/// The verdict on a configuration's root element: `None` when it is
/// accepted, else the error and, for a version, the version found.
pub open spec fn config_root_verdict(root: XmlElementValue) -> Option<(bool, Option<Seq<char>>)> {
    if root.0 != "freewheeling"@ {
        Some((false, None))
    } else if attribute_spec(root.1, "version"@) != Some("0.6"@) {
        Some((true, attribute_spec(root.1, "version"@)))
    } else {
        None
    }
}

/// Checks a configuration's root element (see `config_root_verdict`).
pub fn check_config_root(root: &XmlElement) -> (r: Result<(), ConfigRootError>)
    ensures
        match config_root_verdict(root@) {
            None => r is Ok,
            Some((false, _)) => r matches Err(ConfigRootError::NotFreewheeling),
            Some((true, v)) => r matches Err(ConfigRootError::UnsupportedVersion(found)) && opt_text(found) == v,
        },
{
    if !str_eq(root.name.as_str(), "freewheeling") {
        return Err(ConfigRootError::NotFreewheeling);
    }
    match root.attribute("version") {
        Some(v) => if str_eq(v, "0.6") {
            Ok(())
        } else {
            Err(ConfigRootError::UnsupportedVersion(Some(copy_text(v))))
        },
        None => Err(ConfigRootError::UnsupportedVersion(None)),
    }
}

/// Whether an included interface file's root element is `<interface>`.
pub fn is_interface_root(root: &XmlElement) -> (r: bool)
    ensures
        r == (root@.0 == "interface"@),
{
    str_eq(root.name.as_str(), "interface")
}

/// Counting interfaces that can be switched to, and the others, only
/// grows along the list.
proof fn lemma_switchable_before_grows(switchable: Seq<bool>, i: int, j: int)
    requires
        0 <= i < j <= switchable.len(),
    ensures
        switchable_before(switchable, j) >= switchable_before(switchable, i) + if switchable[i] { 1int } else { 0int },
        j - switchable_before(switchable, j) >= i - switchable_before(switchable, i) + if switchable[i] {
            0int
        } else {
            1int
        },
    decreases j - i,
{
    if j > i + 1 {
        lemma_switchable_before_grows(switchable, i, j - 1);
        lemma_switchable_before_bounds(switchable, j - 1);
    }
}

/// Law: the interfaces of a configuration get different ids, as long as
/// fewer than 1000 of them can be switched to.
pub proof fn law_interface_ids_distinct(switchable: Seq<bool>, i: int, j: int)
    requires
        switchable_before(switchable, switchable.len() as int) < 1000,
        0 <= i < j < switchable.len(),
    ensures
        interface_id(switchable, i) != interface_id(switchable, j),
{
    lemma_switchable_before_grows(switchable, i, j);
    lemma_switchable_before_bounds(switchable, i);
    lemma_switchable_before_bounds(switchable, j);
    if j + 1 <= switchable.len() {
        lemma_switchable_before_grows(switchable, j, switchable.len() as int);
    }
    lemma_switchable_before_grows(switchable, i, switchable.len() as int);
}

/// `s` without the `/` at its end (`str::trim_end_matches('/')`).
pub open spec fn without_trailing_slashes(s: Seq<char>) -> Seq<char>
    decreases s.len(),
{
    if s.len() > 0 && s.last() == '/' {
        without_trailing_slashes(s.drop_last())
    } else {
        s
    }
}

/// The library directory that a `librarypath` setting names: a leading
/// `~` (alone or before `/`) stands for the home directory `home`, which
/// must then be known; trailing `/` are dropped.
pub open spec fn library_dir_spec(value: Seq<char>, home: Option<Seq<char>>) -> Result<Seq<char>, Seq<char>> {
    if value == "~"@ || has_prefix(value, "~/"@) {
        match home {
            None => Err("path '"@ + value + "' requires HOME"@),
            Some(h) => Ok(without_trailing_slashes(h + value.skip(1))),
        }
    } else {
        Ok(without_trailing_slashes(value))
    }
}

/// The library directory that a `librarypath` setting names, given the
/// home directory (see `library_dir_spec`).
pub fn library_dir(value: &str, home: Option<&str>) -> (r: Result<String, String>)
    ensures
        match library_dir_spec(value@, opt_str(home)) {
            Ok(d) => r matches Ok(s) && s@ == d,
            Err(e) => r matches Err(m) && m@ == e,
        },
{
    let expanded = if str_eq(value, "~") || starts_with(value, "~/") {
        match home {
            None => {
                let mut m = string_from("path '");
                push_str(&mut m, value);
                push_str(&mut m, "' requires HOME");
                return Err(m);
            },
            Some(h) => {
                let v = chars_of(value);
                proof {
                    reveal_strlit("~");
                    reveal_strlit("~/");
                }
                assert(v@.len() >= 1);
                let rest = chars_between(&v, 1, v.len());
                assert(rest@ =~= value@.skip(1));
                let mut e = chars_of(h);
                let ghost e0 = e@;
                let mut i: usize = 0;
                while i < rest.len()
                    invariant
                        i <= rest@.len(),
                        e@ == e0 + rest@.take(i as int),
                    decreases rest@.len() - i,
                {
                    e.push(rest[i]);
                    i = i + 1;
                    assert(e@ =~= e0 + rest@.take(i as int));
                }
                assert(rest@.take(i as int) =~= rest@);
                e
            },
        }
    } else {
        chars_of(value)
    };
    let mut n = expanded.len();
    assert(expanded@.take(n as int) =~= expanded@);
    while n > 0 && expanded[n - 1] == '/'
        invariant
            n <= expanded@.len(),
            without_trailing_slashes(expanded@) == without_trailing_slashes(expanded@.take(n as int)),
        decreases n,
    {
        assert(expanded@.take(n as int).drop_last() =~= expanded@.take(n - 1));
        n = n - 1;
    }
    let kept = chars_between(&expanded, 0, n);
    assert(kept@ =~= expanded@.take(n as int));
    Ok(text_of(kept.as_slice()))
}

pub open spec fn opt_str(s: Option<&str>) -> Option<Seq<char>> {
    match s {
        Some(t) => Some(t@),
        None => None,
    }
}

} // verus!
