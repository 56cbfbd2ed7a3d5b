//! The configuration's plain records and the small value parsers it uses:
//! tokens and expressions, interface, layout, font, video and patch bank
//! settings, codecs, integer settings and coordinate pairs.

use vstd::prelude::*;
use crate::blocks::Codec;
use crate::datatypes::{CoreDataType, Range, UserVariable};
use crate::event::EventParameter;
use crate::text::{parse_i32, parse_i32_spec, push_str, string_from, trim, trim_spec, str_eq};

verus! {

/// Longest configuration path.
pub const CFG_PATH_MAX: usize = 2048;

/// Directory of the user's configuration, under the home directory.
pub const FWEELIN_CONFIG_DIR: &'static str = ".fweelin";

/// Name of the main configuration file.
pub const FWEELIN_CONFIG_FILE: &'static str = "fweelin.xml";

/// Extension of configuration files.
pub const FWEELIN_CONFIG_EXT: &'static str = ".xml";

/// Most variables in one snapshot for the renderer.
pub const MAX_CONFIG_VARIABLE_SNAPSHOT: usize = 256;

/// Where the value of a token comes from.
#[derive(Debug, Clone, Copy, PartialEq, Eq, Structural)]
pub enum CfgTokenType {
    NoToken,
    EventParameter,
    UserVariable,
    Static,
}

/// A key of a key list.
#[derive(Debug, Clone, Copy, PartialEq, Eq, Structural)]
pub struct SdlKeyList {
    pub key: i32,
}

/// A token of an expression: a variable, an event parameter or a value.
pub struct CfgToken {
    pub cvt: CfgTokenType,
    pub var_name: Option<String>,
    pub evparam: Option<EventParameter>,
    pub val: UserVariable,
}

impl CfgToken {
    /// The empty token.
    pub fn none() -> (t: CfgToken)
        ensures
            t.cvt == CfgTokenType::NoToken,
            t.var_name is None,
            t.evparam is None,
            t.val.type_ == CoreDataType::Invalid,
            t.val.name is None,
    {
        CfgToken { cvt: CfgTokenType::NoToken, var_name: None, evparam: None, val: UserVariable::new() }
    }
}

/// One step of an expression: an operator and its operand.
pub struct CfgMathOperation {
    pub otype: char,
    pub operand: CfgToken,
}

/// A first token followed by operations.
pub struct ParsedExpression {
    pub start: CfgToken,
    pub ops: Vec<CfgMathOperation>,
}

impl ParsedExpression {
    /// Whether every token of the expression is a fixed value.
    pub fn is_static(&self) -> (r: bool)
        ensures
            r == (self.start.cvt == CfgTokenType::Static && forall|k: int|
                0 <= k < self.ops@.len() ==> #[trigger] self.ops@[k].operand.cvt == CfgTokenType::Static),
    {
        if self.start.cvt != CfgTokenType::Static {
            return false;
        }
        let mut i: usize = 0;
        while i < self.ops.len()
            invariant
                i <= self.ops@.len(),
                forall|k: int| 0 <= k < i ==> #[trigger] self.ops@[k].operand.cvt == CfgTokenType::Static,
            decreases self.ops@.len() - i,
        {
            if self.ops[i].operand.cvt != CfgTokenType::Static {
                return false;
            }
            i = i + 1;
        }
        true
    }
}

/// A token whose value an expression sets.
pub struct DynamicToken {
    pub token: CfgToken,
    pub exp: ParsedExpression,
}

/// An interface and the file that sets it up.
#[derive(Debug, Clone)]
pub struct InterfaceConfig {
    pub id: i32,
    pub switchable: bool,
    pub setup: String,
}

/// A layout of an interface.
#[derive(Debug, Clone)]
pub struct LayoutConfig {
    pub interface_id: i32,
    pub id: i32,
    pub name: Option<String>,
    pub show: bool,
}

/// A font by name, file and size.
#[derive(Debug, Clone)]
pub struct FontConfig {
    pub name: String,
    pub file: String,
    pub size: u32,
}

/// The video settings.
pub struct VideoConfig {
    pub width: u32,
    pub height: u32,
    pub delay_ms: u32,
    pub fonts: Vec<FontConfig>,
    pub layouts: Vec<LayoutConfig>,
    pub display_count: usize,
}

impl VideoConfig {
    /// A 640 by 480 display redrawn every 50 ms, with no fonts or layouts.
    pub fn default_config() -> (v: VideoConfig)
        ensures
            v.width == 640,
            v.height == 480,
            v.delay_ms == 50,
            v.fonts@.len() == 0,
            v.layouts@.len() == 0,
            v.display_count == 0,
    {
        VideoConfig {
            width: 640,
            height: 480,
            delay_ms: 50,
            fonts: Vec::new(),
            layouts: Vec::new(),
            display_count: 0,
        }
    }
}

/// A bank of patches for an interface.
#[derive(Debug, Clone)]
pub struct PatchBankConfig {
    pub interface_id: i32,
    pub patches: String,
    pub midi_port: u32,
    pub separate_channels: bool,
    pub suppress_program_changes: bool,
    pub tag: Option<i32>,
}

/// What `positive_i32` gives: the integer, raised to `minimum`.
pub open spec fn positive_i32_spec(value: Seq<char>, minimum: i32) -> Result<i32, Seq<char>> {
    match parse_i32_spec(value) {
        Some(v) => Ok(if v < minimum { minimum } else { v }),
        None => Err("invalid integer '"@ + value + "'"@),
    }
}

/// Reads an integer setting, raised to at least `minimum`.
pub fn positive_i32(value: &str, minimum: i32) -> (r: Result<i32, String>)
    ensures
        match positive_i32_spec(value@, minimum) {
            Ok(v) => r == Ok::<i32, String>(v),
            Err(e) => r matches Err(m) && m@ == e,
        },
{
    match parse_i32(value) {
        Some(v) => Ok(if v < minimum { minimum } else { v }),
        None => {
            let mut m = string_from("invalid integer '");
            push_str(&mut m, value);
            push_str(&mut m, "'");
            Err(m)
        },
    }
}

/// A character with ASCII small letters made capital.
pub open spec fn ascii_upper_char(c: char) -> char {
    if 'a' <= c && c <= 'z' {
        ((c as u32) - 32) as char
    } else {
        c
    }
}

/// `str::to_ascii_uppercase`.
pub open spec fn ascii_upper(s: Seq<char>) -> Seq<char> {
    s.map_values(|c: char| ascii_upper_char(c))
}

fn ascii_uppercase(s: &str) -> (r: String)
    ensures
        r@ == ascii_upper(s@),
{
    let n = s.unicode_len();
    let mut r = String::new();
    let mut i: usize = 0;
    while i < n
        invariant
            i <= n,
            n == s@.len(),
            r@ == ascii_upper(s@.take(i as int)),
        decreases n - i,
    {
        let c = s.get_char(i);
        let u = if 'a' <= c && c <= 'z' {
            ((c as u8) - 32) as char
        } else {
            c
        };
        crate::text::push_char(&mut r, u);
        assert(ascii_upper(s@.take(i + 1)) =~= ascii_upper(s@.take(i as int)).push(ascii_upper_char(c)));
        i = i + 1;
    }
    assert(s@.take(n as int) =~= s@);
    r
}

/// The codec named by an output format setting (ignoring case and
/// surrounding white space).
pub open spec fn codec_named(value: Seq<char>) -> Result<Codec, Seq<char>> {
    let k = ascii_upper(trim_spec(value));
    if k == "OGG"@ || k == "VORBIS"@ {
        Ok(Codec::Vorbis)
    } else if k == "WAV"@ || k == "WAVE"@ {
        Ok(Codec::Wav)
    } else if k == "FLAC"@ {
        Ok(Codec::Flac)
    } else if k == "AU"@ || k == "SND"@ {
        Ok(Codec::Au)
    } else {
        Err("invalid audio output format '"@ + value + "'"@)
    }
}

/// Reads an audio output format setting.
pub fn parse_codec(value: &str) -> (r: Result<Codec, String>)
    ensures
        match codec_named(value@) {
            Ok(c) => r == Ok::<Codec, String>(c),
            Err(e) => r matches Err(m) && m@ == e,
        },
{
    let k = ascii_uppercase(trim(value));
    let ks = k.as_str();
    if str_eq(ks, "OGG") || str_eq(ks, "VORBIS") {
        Ok(Codec::Vorbis)
    } else if str_eq(ks, "WAV") || str_eq(ks, "WAVE") {
        Ok(Codec::Wav)
    } else if str_eq(ks, "FLAC") {
        Ok(Codec::Flac)
    } else if str_eq(ks, "AU") || str_eq(ks, "SND") {
        Ok(Codec::Au)
    } else {
        let mut m = string_from("invalid audio output format '");
        push_str(&mut m, value);
        push_str(&mut m, "'");
        Err(m)
    }
}

/// Index of the first `,` at or after `from`.
pub open spec fn comma_from(s: Seq<char>, from: int) -> int
    decreases s.len() - from,
{
    if from >= s.len() || from < 0 {
        s.len() as int
    } else if s[from] == ',' {
        from
    } else {
        comma_from(s, from + 1)
    }
}

/// What `parse_pair` gives: the first two comma-separated pieces, each
/// trimmed and read as an integer; anything after a second comma is
/// ignored.
pub open spec fn pair_spec(value: Seq<char>) -> Result<(i32, i32), Seq<char>> {
    let c1 = comma_from(value, 0);
    let x = parse_i32_spec(trim_spec(value.subrange(0, c1)));
    if x is None || c1 >= value.len() {
        Err("invalid pair '"@ + value + "'"@)
    } else {
        let c2 = comma_from(value, c1 + 1);
        match parse_i32_spec(trim_spec(value.subrange(c1 + 1, c2))) {
            Some(y) => Ok((x.unwrap(), y)),
            None => Err("invalid pair '"@ + value + "'"@),
        }
    }
}

proof fn lemma_comma_from_bounds(s: Seq<char>, from: int)
    requires
        0 <= from <= s.len(),
    ensures
        from <= comma_from(s, from) <= s.len(),
    decreases s.len() - from,
{
    if from < s.len() && s[from] != ',' {
        lemma_comma_from_bounds(s, from + 1);
    }
}

fn comma_from_exec(s: &str, from: usize) -> (r: usize)
    requires
        from <= s@.len(),
    ensures
        r == comma_from(s@, from as int),
        from <= r <= s@.len(),
{
    let n = s.unicode_len();
    let mut k = from;
    while k < n && s.get_char(k) != ','
        invariant
            from <= k <= n,
            n == s@.len(),
            comma_from(s@, from as int) == comma_from(s@, k as int),
        decreases n - k,
    {
        k = k + 1;
    }
    k
}

fn pair_error(value: &str) -> (m: String)
    ensures
        m@ == "invalid pair '"@ + value@ + "'"@,
{
    let mut m = string_from("invalid pair '");
    push_str(&mut m, value);
    push_str(&mut m, "'");
    m
}

/// Reads a pair of integers written `x,y`.
pub fn parse_pair(value: &str) -> (r: Result<(i32, i32), String>)
    ensures
        match pair_spec(value@) {
            Ok(p) => r == Ok::<(i32, i32), String>(p),
            Err(e) => r matches Err(m) && m@ == e,
        },
{
    let n = value.unicode_len();
    let c1 = comma_from_exec(value, 0);
    let x = match parse_i32(trim(value.substring_char(0, c1))) {
        Some(x) => x,
        None => return Err(pair_error(value)),
    };
    if c1 >= n {
        return Err(pair_error(value));
    }
    let c2 = comma_from_exec(value, c1 + 1);
    match parse_i32(trim(value.substring_char(c1 + 1, c2))) {
        Some(y) => Ok((x, y)),
        None => Err(pair_error(value)),
    }
}

/// Whether two integer values are equal: ranges bound by bound, a `long`
/// on either side as `long`s, else as `int`s.
pub open spec fn values_equal(left: UserVariable, right: UserVariable) -> bool {
    if left.type_ == CoreDataType::Range && right.type_ == CoreDataType::Range {
        left.range_value() == right.range_value()
    } else if left.type_ == CoreDataType::Long || right.type_ == CoreDataType::Long {
        left.long_value() == right.long_value()
    } else {
        left.int_value() == right.int_value()
    }
}

/// Equality of two non-float variables.
pub fn user_variables_equal(left: &UserVariable, right: &UserVariable) -> (r: bool)
    requires
        left.type_ != CoreDataType::Float,
        right.type_ != CoreDataType::Float,
    ensures
        r == values_equal(*left, *right),
{
    if left.get_type() == CoreDataType::Range && right.get_type() == CoreDataType::Range {
        let a = left.as_range();
        let b = right.as_range();
        a.lo == b.lo && a.hi == b.hi
    } else if left.get_type() == CoreDataType::Long || right.get_type() == CoreDataType::Long {
        left.as_i64() == right.as_i64()
    } else {
        left.as_i32() == right.as_i32()
    }
}

/// Whether a binding condition holds: a range on one side holds when the
/// other side's value lies within it; two ranges must be equal; other
/// values must be equal.
pub open spec fn condition_holds(left: UserVariable, right: UserVariable) -> bool {
    if left.type_ == CoreDataType::Range && right.type_ == CoreDataType::Range {
        left.range_value() == right.range_value()
    } else if left.type_ == CoreDataType::Range {
        left.range_value().lo <= right.int_value() <= left.range_value().hi
    } else if right.type_ == CoreDataType::Range {
        right.range_value().lo <= left.int_value() <= right.range_value().hi
    } else {
        values_equal(left, right)
    }
}

/// Tests a binding condition; a `float` is compared only against a range
/// (by its truncated integer value).
pub fn condition_values_match(left: &UserVariable, right: &UserVariable) -> (r: bool)
    requires
        left.type_ == CoreDataType::Range || right.type_ == CoreDataType::Range || (left.type_
            != CoreDataType::Float && right.type_ != CoreDataType::Float),
    ensures
        r == condition_holds(*left, *right),
{
    let lt = left.get_type();
    let rt = right.get_type();
    if lt == CoreDataType::Range && rt == CoreDataType::Range {
        let a = left.as_range();
        let b = right.as_range();
        a.lo == b.lo && a.hi == b.hi
    } else if lt == CoreDataType::Range {
        let range = left.as_range();
        let v = right.as_i32();
        range.lo <= v && v <= range.hi
    } else if rt == CoreDataType::Range {
        let range = right.as_range();
        let v = left.as_i32();
        range.lo <= v && v <= range.hi
    } else {
        user_variables_equal(left, right)
    }
}

} // verus!
