//! Building the event that a matched binding sends.  A binding names its
//! output event and computes named parameters; each event type reads the
//! parameters it needs, by name, in a fixed order, and coerces each to the
//! kind it needs (`output_schema`).  Floats are carried by their bits.

use vstd::prelude::*;
use crate::datatypes::{CoreDataType, Range, UserVariable, f32_as_int, f32_bits_as_int, int_to_f32_bits, i64_to_f32_bits};
use crate::event::EventType;
use crate::text::{str_eq, string_from};

verus! {

/// How an event reads one parameter: as an `int`, a `float`, a flag (an
/// `int` that is not 0), a flag that is false when it cannot be read, a
/// range, a variable, a variable or else an empty variable, or the name
/// of a variable.
#[derive(Debug, Clone, Copy, PartialEq, Eq, Structural)]
pub enum ParamKind {
    Int,
    Float,
    Bool,
    OptionalBool,
    Range,
    Variable,
    OptionalVariable,
    VariableRef,
}

/// A parameter value computed for a binding; a float by its bits.
pub enum StoredParameterValue {
    Char(i8),
    Int(i32),
    Long(i64),
    Float(u32),
    Range(Range),
    Variable(UserVariable),
    VariableRef(Option<String>),
}

/// A binding that matched: the event it sends and its parameters, by name.
pub struct ResolvedBinding {
    pub output_event: Option<EventType>,
    pub parameters: Vec<(String, StoredParameterValue)>,
}

/// One argument of a built event, in the order of `output_schema`.
pub enum BoundArg {
    Int(i32),
    Float(u32),
    Bool(bool),
    Range(Range),
    Variable(UserVariable),
    VariableRef(String),
}

/// An event built from a binding: its type and its arguments.
pub struct BoundEvent {
    pub event_type: EventType,
    pub args: Vec<BoundArg>,
}

/// Why a binding could not build its event.  A parameter that is missing
/// is reported with the kind that was read (a flag is read as an `int`).
pub enum BindingError {
    MissingOutputEvent,
    MissingParameter(ParamKind, String),
    NotCoercible(ParamKind, String, StoredParameterValue),
    UnresolvedVariableRef(String),
    NotConstructible(EventType),
}

/// Plain value of a variable and of the variables chained after it.
pub struct VariableValue {
    pub name: Option<Seq<char>>,
    pub type_: CoreDataType,
    pub data: Seq<u8>,
    pub is_system: bool,
    pub next: Option<Box<VariableValue>>,
}

pub open spec fn variable_value(v: UserVariable) -> VariableValue
    decreases v,
{
    VariableValue {
        name: match v.name {
            Some(s) => Some(s@),
            None => None,
        },
        type_: v.type_,
        data: v.data@,
        is_system: v.is_system,
        next: match v.next {
            Some(b) => Some(Box::new(variable_value(*b))),
            None => None,
        },
    }
}

/// The empty variable: no name, invalid type, zero data.
pub open spec fn empty_variable_value() -> VariableValue {
    VariableValue {
        name: None,
        type_: CoreDataType::Invalid,
        data: Seq::new(16, |i: int| 0u8),
        is_system: false,
        next: None,
    }
}

/// Plain value of a parameter.
pub enum StoredValue {
    Char(i8),
    Int(i32),
    Long(i64),
    Float(u32),
    Range(Range),
    Variable(VariableValue),
    VariableRef(Option<Seq<char>>),
}

pub open spec fn stored_value(p: StoredParameterValue) -> StoredValue {
    match p {
        StoredParameterValue::Char(c) => StoredValue::Char(c),
        StoredParameterValue::Int(x) => StoredValue::Int(x),
        StoredParameterValue::Long(l) => StoredValue::Long(l),
        StoredParameterValue::Float(b) => StoredValue::Float(b),
        StoredParameterValue::Range(r) => StoredValue::Range(r),
        StoredParameterValue::Variable(v) => StoredValue::Variable(variable_value(v)),
        StoredParameterValue::VariableRef(s) => StoredValue::VariableRef(
            match s {
                Some(t) => Some(t@),
                None => None,
            },
        ),
    }
}

pub open spec fn params_view(ps: Seq<(String, StoredParameterValue)>) -> Seq<(Seq<char>, StoredValue)> {
    ps.map_values(|p: (String, StoredParameterValue)| (p.0@, stored_value(p.1)))
}

pub open spec fn schema_view(s: Seq<(&'static str, ParamKind)>) -> Seq<(Seq<char>, ParamKind)> {
    s.map_values(|p: (&'static str, ParamKind)| (p.0@, p.1))
}

/// Plain value of an argument.
pub enum ArgValue {
    Int(i32),
    Float(u32),
    Bool(bool),
    Range(Range),
    Variable(VariableValue),
    VariableRef(Seq<char>),
}

pub open spec fn arg_value(a: BoundArg) -> ArgValue {
    match a {
        BoundArg::Int(x) => ArgValue::Int(x),
        BoundArg::Float(b) => ArgValue::Float(b),
        BoundArg::Bool(b) => ArgValue::Bool(b),
        BoundArg::Range(r) => ArgValue::Range(r),
        BoundArg::Variable(v) => ArgValue::Variable(variable_value(v)),
        BoundArg::VariableRef(s) => ArgValue::VariableRef(s@),
    }
}

/// Plain value of an error.
pub enum BindingErrorValue {
    MissingOutputEvent,
    MissingParameter(ParamKind, Seq<char>),
    NotCoercible(ParamKind, Seq<char>, StoredValue),
    UnresolvedVariableRef(Seq<char>),
    NotConstructible(EventType),
}

pub open spec fn error_value(e: BindingError) -> BindingErrorValue {
    match e {
        BindingError::MissingOutputEvent => BindingErrorValue::MissingOutputEvent,
        BindingError::MissingParameter(k, n) => BindingErrorValue::MissingParameter(k, n@),
        BindingError::NotCoercible(k, n, v) => BindingErrorValue::NotCoercible(k, n@, stored_value(v)),
        BindingError::UnresolvedVariableRef(n) => BindingErrorValue::UnresolvedVariableRef(n@),
        BindingError::NotConstructible(t) => BindingErrorValue::NotConstructible(t),
    }
}

/// The first parameter named `name` at or after position `i`.
pub open spec fn param_from(ps: Seq<(Seq<char>, StoredValue)>, name: Seq<char>, i: int) -> Option<StoredValue>
    decreases ps.len() - i,
{
    if i < 0 || i >= ps.len() {
        None
    } else if ps[i].0 == name {
        Some(ps[i].1)
    } else {
        param_from(ps, name, i + 1)
    }
}

/// A parameter read as an `int`: integers are cut to 32 bits, a float is
/// truncated (saturating).
pub open spec fn int_arg(found: Option<StoredValue>, name: Seq<char>) -> Result<i32, BindingErrorValue> {
    match found {
        None => Err(BindingErrorValue::MissingParameter(ParamKind::Int, name)),
        Some(v) => match v {
            StoredValue::Int(x) => Ok(x),
            StoredValue::Char(c) => Ok(c as i32),
            StoredValue::Long(l) => Ok(l as i32),
            StoredValue::Float(b) => Ok(f32_as_int(b, i32::MIN as int, i32::MAX as int) as i32),
            _ => Err(BindingErrorValue::NotCoercible(ParamKind::Int, name, v)),
        },
    }
}

/// A parameter read as a `float` (its bits): an integer becomes the
/// nearest float.
pub open spec fn float_arg(found: Option<StoredValue>, name: Seq<char>) -> Result<u32, BindingErrorValue> {
    match found {
        None => Err(BindingErrorValue::MissingParameter(ParamKind::Float, name)),
        Some(v) => match v {
            StoredValue::Float(b) => Ok(b),
            StoredValue::Int(x) => Ok(int_to_f32_bits(x as int)),
            StoredValue::Char(c) => Ok(int_to_f32_bits(c as int)),
            StoredValue::Long(l) => Ok(int_to_f32_bits(l as int)),
            _ => Err(BindingErrorValue::NotCoercible(ParamKind::Float, name, v)),
        },
    }
}

/// A parameter read as `kind`.
pub open spec fn schema_arg(kind: ParamKind, found: Option<StoredValue>, name: Seq<char>) -> Result<ArgValue, BindingErrorValue> {
    match kind {
        ParamKind::Int => match int_arg(found, name) {
            Ok(x) => Ok(ArgValue::Int(x)),
            Err(e) => Err(e),
        },
        ParamKind::Float => match float_arg(found, name) {
            Ok(b) => Ok(ArgValue::Float(b)),
            Err(e) => Err(e),
        },
        ParamKind::Bool => match int_arg(found, name) {
            Ok(x) => Ok(ArgValue::Bool(x != 0)),
            Err(e) => Err(e),
        },
        ParamKind::OptionalBool => match int_arg(found, name) {
            Ok(x) => Ok(ArgValue::Bool(x != 0)),
            Err(_) => Ok(ArgValue::Bool(false)),
        },
        ParamKind::Range => match found {
            Some(StoredValue::Range(r)) => Ok(ArgValue::Range(r)),
            Some(v) => Err(BindingErrorValue::NotCoercible(ParamKind::Range, name, v)),
            None => Err(BindingErrorValue::MissingParameter(ParamKind::Range, name)),
        },
        ParamKind::Variable => match found {
            Some(StoredValue::Variable(v)) => Ok(ArgValue::Variable(v)),
            _ => Err(BindingErrorValue::MissingParameter(ParamKind::Variable, name)),
        },
        ParamKind::OptionalVariable => match found {
            Some(StoredValue::Variable(v)) => Ok(ArgValue::Variable(v)),
            _ => Ok(ArgValue::Variable(empty_variable_value())),
        },
        ParamKind::VariableRef => match found {
            Some(StoredValue::VariableRef(Some(s))) => Ok(ArgValue::VariableRef(s)),
            Some(StoredValue::VariableRef(None)) => Err(BindingErrorValue::UnresolvedVariableRef(name)),
            Some(v) => Err(BindingErrorValue::NotCoercible(ParamKind::VariableRef, name, v)),
            None => Err(BindingErrorValue::MissingParameter(ParamKind::VariableRef, name)),
        },
    }
}

/// The arguments read for the first `k` entries of `schema`; the first
/// failure stops reading.
pub open spec fn bound_args(
    ps: Seq<(Seq<char>, StoredValue)>,
    schema: Seq<(Seq<char>, ParamKind)>,
    k: nat,
) -> Result<Seq<ArgValue>, BindingErrorValue>
    decreases k,
{
    if k == 0 {
        Ok(Seq::empty())
    } else {
        match bound_args(ps, schema, (k - 1) as nat) {
            Err(e) => Err(e),
            Ok(a) => {
                let entry = schema[k - 1];
                match schema_arg(entry.1, param_from(ps, entry.0, 0), entry.0) {
                    Ok(x) => Ok(a.push(x)),
                    Err(e) => Err(e),
                }
            },
        }
    }
}

/// The event that a binding with output `out` and parameters `ps` builds.
pub open spec fn bound_event(out: Option<EventType>, ps: Seq<(Seq<char>, StoredValue)>) -> Result<
    (EventType, Seq<ArgValue>),
    BindingErrorValue,
> {
    match out {
        None => Err(BindingErrorValue::MissingOutputEvent),
        Some(t) => match output_schema(t) {
            None => Err(BindingErrorValue::NotConstructible(t)),
            Some(s) => match bound_args(ps, s, s.len()) {
                Ok(a) => Ok((t, a)),
                Err(e) => Err(e),
            },
        },
    }
}

/// The parameters, by name and kind and in the order they are read, from
/// which a binding builds an event of type `t`; `None` where bindings
/// cannot build that event.
pub open spec fn output_schema(t: EventType) -> Option<Seq<(Seq<char>, ParamKind)>> {
    match t {
        EventType::StartSession => Some(Seq::empty()),
        EventType::ExitSession => Some(Seq::empty()),
        EventType::GoSub => Some(seq![("sub"@, ParamKind::Int), ("param1"@, ParamKind::Float), ("param2"@, ParamKind::Float), ("param3"@, ParamKind::Float)]),
        EventType::ALSAMixerControlSet => Some(seq![("hwid"@, ParamKind::Int), ("numid"@, ParamKind::Int), ("val1"@, ParamKind::Int), ("val2"@, ParamKind::Int), ("val3"@, ParamKind::Int), ("val4"@, ParamKind::Int)]),
        EventType::ParamSetGetAbsoluteParamIdx => Some(seq![("interfaceid"@, ParamKind::Int), ("displayid"@, ParamKind::Int), ("paramidx"@, ParamKind::Int), ("absidx"@, ParamKind::VariableRef)]),
        EventType::ParamSetGetParam => Some(seq![("interfaceid"@, ParamKind::Int), ("displayid"@, ParamKind::Int), ("paramidx"@, ParamKind::Int), ("var"@, ParamKind::VariableRef)]),
        EventType::ParamSetSetParam => Some(seq![("interfaceid"@, ParamKind::Int), ("displayid"@, ParamKind::Int), ("paramidx"@, ParamKind::Int), ("value"@, ParamKind::Float)]),
        EventType::LogFaderVolToLinear => Some(seq![("var"@, ParamKind::VariableRef), ("fadervol"@, ParamKind::Variable), ("scale"@, ParamKind::Float)]),
        EventType::TriggerLoop => Some(seq![("loopid"@, ParamKind::Int), ("vol"@, ParamKind::Float)]),
        EventType::SetInVolume => Some(seq![("input"@, ParamKind::Int), ("vol"@, ParamKind::Float), ("fadervol"@, ParamKind::Float)]),
        EventType::SlideInVolume => Some(seq![("input"@, ParamKind::Int), ("slide"@, ParamKind::Float)]),
        EventType::StartInterface => Some(seq![("interfaceid"@, ParamKind::Int)]),
        EventType::VideoSwitchInterface => Some(seq![("interfaceid"@, ParamKind::Int)]),
        EventType::VideoShowDisplay => Some(seq![("interfaceid"@, ParamKind::Int), ("displayid"@, ParamKind::Int), ("show"@, ParamKind::Bool)]),
        EventType::VideoShowLayout => Some(seq![("interfaceid"@, ParamKind::Int), ("layoutid"@, ParamKind::Int), ("show"@, ParamKind::Bool), ("hideothers"@, ParamKind::Bool)]),
        EventType::VideoShowHelp => Some(seq![("page"@, ParamKind::Int)]),
        EventType::VideoFullScreen => Some(seq![("fullscreen"@, ParamKind::Bool)]),
        EventType::ShowDebugInfo => Some(seq![("show"@, ParamKind::Bool)]),
        EventType::VideoShowLoop => Some(seq![("interfaceid"@, ParamKind::Int), ("layoutid"@, ParamKind::Int), ("loopid"@, ParamKind::Range)]),
        EventType::VideoShowSnapshotPage => Some(seq![("interfaceid"@, ParamKind::Int), ("displayid"@, ParamKind::Int), ("page"@, ParamKind::Int)]),
        EventType::VideoShowParamSetBank => Some(seq![("interfaceid"@, ParamKind::Int), ("displayid"@, ParamKind::Int), ("bank"@, ParamKind::Int)]),
        EventType::VideoShowParamSetPage => Some(seq![("interfaceid"@, ParamKind::Int), ("displayid"@, ParamKind::Int), ("page"@, ParamKind::Int)]),
        EventType::FluidSynthEnable => Some(seq![("enable"@, ParamKind::Bool)]),
        EventType::SetMidiTuning => Some(seq![("tuning"@, ParamKind::Float)]),
        EventType::SlideMasterInVolume => Some(seq![("slide"@, ParamKind::Float)]),
        EventType::SlideMasterOutVolume => Some(seq![("slide"@, ParamKind::Float)]),
        EventType::BrowserMoveToItem => Some(seq![("browserid"@, ParamKind::Int), ("adjust"@, ParamKind::Int), ("jumpadjust"@, ParamKind::Int)]),
        EventType::BrowserMoveToItemAbsolute => Some(seq![("browserid"@, ParamKind::Int), ("idx"@, ParamKind::Int)]),
        EventType::BrowserSelectItem => Some(seq![("browserid"@, ParamKind::Int)]),
        EventType::BrowserRenameItem => Some(seq![("browserid"@, ParamKind::Int)]),
        EventType::BrowserItemBrowsed => Some(seq![("browserid"@, ParamKind::Int)]),
        EventType::PatchBrowserMoveToBank => Some(seq![("direction"@, ParamKind::Int)]),
        EventType::PatchBrowserMoveToBankByIndex => Some(seq![("idx"@, ParamKind::Int)]),
        EventType::SetMasterInVolume => Some(seq![("vol"@, ParamKind::Float), ("fadervol"@, ParamKind::Float)]),
        EventType::SetMasterOutVolume => Some(seq![("vol"@, ParamKind::Float), ("fadervol"@, ParamKind::Float)]),
        EventType::ToggleInputRecord => Some(seq![("input"@, ParamKind::Int)]),
        EventType::SetMidiEchoPort => Some(seq![("echoport"@, ParamKind::Int)]),
        EventType::SetMidiEchoChannel => Some(seq![("echochannel"@, ParamKind::Int)]),
        EventType::AdjustMidiTranspose => Some(seq![("adjust"@, ParamKind::Int)]),
        EventType::SetTriggerVolume => Some(seq![("loopid"@, ParamKind::Int), ("vol"@, ParamKind::Float)]),
        EventType::SlideLoopAmp => Some(seq![("loopid"@, ParamKind::Int), ("slide"@, ParamKind::Float)]),
        EventType::SetLoopAmp => Some(seq![("loopid"@, ParamKind::Int), ("amp"@, ParamKind::Float)]),
        EventType::AdjustLoopAmp => Some(seq![("loopid"@, ParamKind::Int), ("ampfactor"@, ParamKind::Float)]),
        EventType::RenameLoop => Some(seq![("loopid"@, ParamKind::Int), ("in"@, ParamKind::Bool)]),
        EventType::ToggleSelectLoop => Some(seq![("setid"@, ParamKind::Int), ("loopid"@, ParamKind::Int)]),
        EventType::SelectOnlyPlayingLoops => Some(seq![("setid"@, ParamKind::Int), ("playing"@, ParamKind::Bool)]),
        EventType::SelectAllLoops => Some(seq![("setid"@, ParamKind::Int), ("select"@, ParamKind::Bool)]),
        EventType::TriggerSelectedLoops => Some(seq![("setid"@, ParamKind::Int), ("vol"@, ParamKind::Float), ("toggleloops"@, ParamKind::Bool)]),
        EventType::SetSelectedLoopsTriggerVolume => Some(seq![("setid"@, ParamKind::Int), ("vol"@, ParamKind::Float)]),
        EventType::AdjustSelectedLoopsAmp => Some(seq![("setid"@, ParamKind::Int), ("ampfactor"@, ParamKind::Float)]),
        EventType::InvertSelection => Some(seq![("setid"@, ParamKind::Int)]),
        EventType::CreateSnapshot => Some(seq![("snapid"@, ParamKind::Int)]),
        EventType::SwapSnapshots => Some(seq![("snapid1"@, ParamKind::Int), ("snapid2"@, ParamKind::Int)]),
        EventType::RenameSnapshot => Some(seq![("snapid"@, ParamKind::Int)]),
        EventType::TriggerSnapshot => Some(seq![("snapid"@, ParamKind::Int)]),
        EventType::MoveLoop => Some(seq![("oldloopid"@, ParamKind::Int), ("newloopid"@, ParamKind::Int)]),
        EventType::EraseLoop => Some(seq![("loopid"@, ParamKind::Int)]),
        EventType::EraseAllLoops => Some(Seq::empty()),
        EventType::EraseSelectedLoops => Some(seq![("setid"@, ParamKind::Int)]),
        EventType::ToggleDiskOutput => Some(Seq::empty()),
        EventType::SetAutoLoopSaving => Some(seq![("save"@, ParamKind::Bool)]),
        EventType::SaveLoop => Some(seq![("loopid"@, ParamKind::Int)]),
        EventType::SaveNewScene => Some(Seq::empty()),
        EventType::SaveCurrentScene => Some(Seq::empty()),
        EventType::SetLoadLoopId => Some(seq![("loopid"@, ParamKind::Int)]),
        EventType::SetDefaultLoopPlacement => Some(seq![("looprange"@, ParamKind::Range)]),
        EventType::SelectPulse => Some(seq![("pulse"@, ParamKind::Int)]),
        EventType::DeletePulse => Some(seq![("pulse"@, ParamKind::Int)]),
        EventType::TapPulse => Some(seq![("pulse"@, ParamKind::Int), ("newlen"@, ParamKind::Bool)]),
        EventType::SwitchMetronome => Some(seq![("pulse"@, ParamKind::Int), ("metronome"@, ParamKind::Bool)]),
        EventType::SetSyncType => Some(seq![("stype"@, ParamKind::Bool)]),
        EventType::SetSyncSpeed => Some(seq![("sspd"@, ParamKind::Int)]),
        EventType::SetMidiSync => Some(seq![("midisync"@, ParamKind::Int)]),
        EventType::PulseSync => Some(Seq::empty()),
        EventType::SlideLoopAmpStopAll => Some(Seq::empty()),
        EventType::TransmitPlayingLoopsToDAW => Some(Seq::empty()),
        EventType::SetVariable => Some(seq![("var"@, ParamKind::VariableRef), ("value"@, ParamKind::Variable), ("maxjumpcheck"@, ParamKind::OptionalBool), ("maxjump"@, ParamKind::OptionalVariable)]),
        EventType::ToggleVariable => Some(seq![("var"@, ParamKind::VariableRef), ("maxvalue"@, ParamKind::Int), ("minvalue"@, ParamKind::Int)]),
        EventType::SplitVariableMSBLSB => Some(seq![("var"@, ParamKind::Variable), ("msb"@, ParamKind::VariableRef), ("lsb"@, ParamKind::VariableRef)]),
        _ => None,
    }
}

/// The parameters from which a binding builds an event of type `t` (see
/// `output_schema`).
pub fn event_output_schema(t: EventType) -> (r: Option<Vec<(&'static str, ParamKind)>>)
    ensures
        match output_schema(t) {
            Some(s) => r matches Some(v) && schema_view(v@) == s,
            None => r is None,
        },
{
    let r = match t {
        EventType::StartSession => Some(Vec::new()),
        EventType::ExitSession => Some(Vec::new()),
        EventType::GoSub => Some(vec![("sub", ParamKind::Int), ("param1", ParamKind::Float), ("param2", ParamKind::Float), ("param3", ParamKind::Float)]),
        EventType::ALSAMixerControlSet => Some(vec![("hwid", ParamKind::Int), ("numid", ParamKind::Int), ("val1", ParamKind::Int), ("val2", ParamKind::Int), ("val3", ParamKind::Int), ("val4", ParamKind::Int)]),
        EventType::ParamSetGetAbsoluteParamIdx => Some(vec![("interfaceid", ParamKind::Int), ("displayid", ParamKind::Int), ("paramidx", ParamKind::Int), ("absidx", ParamKind::VariableRef)]),
        EventType::ParamSetGetParam => Some(vec![("interfaceid", ParamKind::Int), ("displayid", ParamKind::Int), ("paramidx", ParamKind::Int), ("var", ParamKind::VariableRef)]),
        EventType::ParamSetSetParam => Some(vec![("interfaceid", ParamKind::Int), ("displayid", ParamKind::Int), ("paramidx", ParamKind::Int), ("value", ParamKind::Float)]),
        EventType::LogFaderVolToLinear => Some(vec![("var", ParamKind::VariableRef), ("fadervol", ParamKind::Variable), ("scale", ParamKind::Float)]),
        EventType::TriggerLoop => Some(vec![("loopid", ParamKind::Int), ("vol", ParamKind::Float)]),
        EventType::SetInVolume => Some(vec![("input", ParamKind::Int), ("vol", ParamKind::Float), ("fadervol", ParamKind::Float)]),
        EventType::SlideInVolume => Some(vec![("input", ParamKind::Int), ("slide", ParamKind::Float)]),
        EventType::StartInterface => Some(vec![("interfaceid", ParamKind::Int)]),
        EventType::VideoSwitchInterface => Some(vec![("interfaceid", ParamKind::Int)]),
        EventType::VideoShowDisplay => Some(vec![("interfaceid", ParamKind::Int), ("displayid", ParamKind::Int), ("show", ParamKind::Bool)]),
        EventType::VideoShowLayout => Some(vec![("interfaceid", ParamKind::Int), ("layoutid", ParamKind::Int), ("show", ParamKind::Bool), ("hideothers", ParamKind::Bool)]),
        EventType::VideoShowHelp => Some(vec![("page", ParamKind::Int)]),
        EventType::VideoFullScreen => Some(vec![("fullscreen", ParamKind::Bool)]),
        EventType::ShowDebugInfo => Some(vec![("show", ParamKind::Bool)]),
        EventType::VideoShowLoop => Some(vec![("interfaceid", ParamKind::Int), ("layoutid", ParamKind::Int), ("loopid", ParamKind::Range)]),
        EventType::VideoShowSnapshotPage => Some(vec![("interfaceid", ParamKind::Int), ("displayid", ParamKind::Int), ("page", ParamKind::Int)]),
        EventType::VideoShowParamSetBank => Some(vec![("interfaceid", ParamKind::Int), ("displayid", ParamKind::Int), ("bank", ParamKind::Int)]),
        EventType::VideoShowParamSetPage => Some(vec![("interfaceid", ParamKind::Int), ("displayid", ParamKind::Int), ("page", ParamKind::Int)]),
        EventType::FluidSynthEnable => Some(vec![("enable", ParamKind::Bool)]),
        EventType::SetMidiTuning => Some(vec![("tuning", ParamKind::Float)]),
        EventType::SlideMasterInVolume => Some(vec![("slide", ParamKind::Float)]),
        EventType::SlideMasterOutVolume => Some(vec![("slide", ParamKind::Float)]),
        EventType::BrowserMoveToItem => Some(vec![("browserid", ParamKind::Int), ("adjust", ParamKind::Int), ("jumpadjust", ParamKind::Int)]),
        EventType::BrowserMoveToItemAbsolute => Some(vec![("browserid", ParamKind::Int), ("idx", ParamKind::Int)]),
        EventType::BrowserSelectItem => Some(vec![("browserid", ParamKind::Int)]),
        EventType::BrowserRenameItem => Some(vec![("browserid", ParamKind::Int)]),
        EventType::BrowserItemBrowsed => Some(vec![("browserid", ParamKind::Int)]),
        EventType::PatchBrowserMoveToBank => Some(vec![("direction", ParamKind::Int)]),
        EventType::PatchBrowserMoveToBankByIndex => Some(vec![("idx", ParamKind::Int)]),
        EventType::SetMasterInVolume => Some(vec![("vol", ParamKind::Float), ("fadervol", ParamKind::Float)]),
        EventType::SetMasterOutVolume => Some(vec![("vol", ParamKind::Float), ("fadervol", ParamKind::Float)]),
        EventType::ToggleInputRecord => Some(vec![("input", ParamKind::Int)]),
        EventType::SetMidiEchoPort => Some(vec![("echoport", ParamKind::Int)]),
        EventType::SetMidiEchoChannel => Some(vec![("echochannel", ParamKind::Int)]),
        EventType::AdjustMidiTranspose => Some(vec![("adjust", ParamKind::Int)]),
        EventType::SetTriggerVolume => Some(vec![("loopid", ParamKind::Int), ("vol", ParamKind::Float)]),
        EventType::SlideLoopAmp => Some(vec![("loopid", ParamKind::Int), ("slide", ParamKind::Float)]),
        EventType::SetLoopAmp => Some(vec![("loopid", ParamKind::Int), ("amp", ParamKind::Float)]),
        EventType::AdjustLoopAmp => Some(vec![("loopid", ParamKind::Int), ("ampfactor", ParamKind::Float)]),
        EventType::RenameLoop => Some(vec![("loopid", ParamKind::Int), ("in", ParamKind::Bool)]),
        EventType::ToggleSelectLoop => Some(vec![("setid", ParamKind::Int), ("loopid", ParamKind::Int)]),
        EventType::SelectOnlyPlayingLoops => Some(vec![("setid", ParamKind::Int), ("playing", ParamKind::Bool)]),
        EventType::SelectAllLoops => Some(vec![("setid", ParamKind::Int), ("select", ParamKind::Bool)]),
        EventType::TriggerSelectedLoops => Some(vec![("setid", ParamKind::Int), ("vol", ParamKind::Float), ("toggleloops", ParamKind::Bool)]),
        EventType::SetSelectedLoopsTriggerVolume => Some(vec![("setid", ParamKind::Int), ("vol", ParamKind::Float)]),
        EventType::AdjustSelectedLoopsAmp => Some(vec![("setid", ParamKind::Int), ("ampfactor", ParamKind::Float)]),
        EventType::InvertSelection => Some(vec![("setid", ParamKind::Int)]),
        EventType::CreateSnapshot => Some(vec![("snapid", ParamKind::Int)]),
        EventType::SwapSnapshots => Some(vec![("snapid1", ParamKind::Int), ("snapid2", ParamKind::Int)]),
        EventType::RenameSnapshot => Some(vec![("snapid", ParamKind::Int)]),
        EventType::TriggerSnapshot => Some(vec![("snapid", ParamKind::Int)]),
        EventType::MoveLoop => Some(vec![("oldloopid", ParamKind::Int), ("newloopid", ParamKind::Int)]),
        EventType::EraseLoop => Some(vec![("loopid", ParamKind::Int)]),
        EventType::EraseAllLoops => Some(Vec::new()),
        EventType::EraseSelectedLoops => Some(vec![("setid", ParamKind::Int)]),
        EventType::ToggleDiskOutput => Some(Vec::new()),
        EventType::SetAutoLoopSaving => Some(vec![("save", ParamKind::Bool)]),
        EventType::SaveLoop => Some(vec![("loopid", ParamKind::Int)]),
        EventType::SaveNewScene => Some(Vec::new()),
        EventType::SaveCurrentScene => Some(Vec::new()),
        EventType::SetLoadLoopId => Some(vec![("loopid", ParamKind::Int)]),
        EventType::SetDefaultLoopPlacement => Some(vec![("looprange", ParamKind::Range)]),
        EventType::SelectPulse => Some(vec![("pulse", ParamKind::Int)]),
        EventType::DeletePulse => Some(vec![("pulse", ParamKind::Int)]),
        EventType::TapPulse => Some(vec![("pulse", ParamKind::Int), ("newlen", ParamKind::Bool)]),
        EventType::SwitchMetronome => Some(vec![("pulse", ParamKind::Int), ("metronome", ParamKind::Bool)]),
        EventType::SetSyncType => Some(vec![("stype", ParamKind::Bool)]),
        EventType::SetSyncSpeed => Some(vec![("sspd", ParamKind::Int)]),
        EventType::SetMidiSync => Some(vec![("midisync", ParamKind::Int)]),
        EventType::PulseSync => Some(Vec::new()),
        EventType::SlideLoopAmpStopAll => Some(Vec::new()),
        EventType::TransmitPlayingLoopsToDAW => Some(Vec::new()),
        EventType::SetVariable => Some(vec![("var", ParamKind::VariableRef), ("value", ParamKind::Variable), ("maxjumpcheck", ParamKind::OptionalBool), ("maxjump", ParamKind::OptionalVariable)]),
        EventType::ToggleVariable => Some(vec![("var", ParamKind::VariableRef), ("maxvalue", ParamKind::Int), ("minvalue", ParamKind::Int)]),
        EventType::SplitVariableMSBLSB => Some(vec![("var", ParamKind::Variable), ("msb", ParamKind::VariableRef), ("lsb", ParamKind::VariableRef)]),
        _ => None,
    };
    proof {
        if r is Some {
            assert(schema_view(r.unwrap()@) =~= output_schema(t).unwrap());
        }
    }
    r
}

/// A copy of a variable and of the variables chained after it.
pub fn copy_variable(v: &UserVariable) -> (r: UserVariable)
    ensures
        variable_value(r) == variable_value(*v),
    decreases v,
{
    let name = match &v.name {
        Some(s) => Some(string_from(s.as_str())),
        None => None,
    };
    let next = match &v.next {
        Some(b) => Some(Box::new(copy_variable(&**b))),
        None => None,
    };
    UserVariable { name, type_: v.type_, data: v.data, is_system: v.is_system, next }
}

/// A copy of a parameter value.
pub fn copy_stored(p: &StoredParameterValue) -> (r: StoredParameterValue)
    ensures
        stored_value(r) == stored_value(*p),
{
    match p {
        StoredParameterValue::Char(c) => StoredParameterValue::Char(*c),
        StoredParameterValue::Int(x) => StoredParameterValue::Int(*x),
        StoredParameterValue::Long(l) => StoredParameterValue::Long(*l),
        StoredParameterValue::Float(b) => StoredParameterValue::Float(*b),
        StoredParameterValue::Range(r) => StoredParameterValue::Range(*r),
        StoredParameterValue::Variable(v) => StoredParameterValue::Variable(copy_variable(v)),
        StoredParameterValue::VariableRef(s) => StoredParameterValue::VariableRef(
            match s {
                Some(t) => Some(string_from(t.as_str())),
                None => None,
            },
        ),
    }
}

/// The first parameter named `name`.
pub fn find_parameter<'a>(ps: &'a Vec<(String, StoredParameterValue)>, name: &str) -> (r: Option<
    &'a StoredParameterValue,
>)
    ensures
        match param_from(params_view(ps@), name@, 0) {
            Some(v) => r matches Some(x) && stored_value(*x) == v,
            None => r is None,
        },
{
    let ghost view = params_view(ps@);
    let mut i: usize = 0;
    while i < ps.len()
        invariant
            i <= ps@.len(),
            view == params_view(ps@),
            param_from(view, name@, 0) == param_from(view, name@, i as int),
        decreases ps@.len() - i,
    {
        assert(view[i as int] == (ps@[i as int].0@, stored_value(ps@[i as int].1)));
        if str_eq(ps[i].0.as_str(), name) {
            return Some(&ps[i].1);
        }
        i = i + 1;
    }
    None
}

pub open spec fn found_value(found: Option<&StoredParameterValue>) -> Option<StoredValue> {
    match found {
        Some(x) => Some(stored_value(*x)),
        None => None,
    }
}

fn int_arg_of(found: Option<&StoredParameterValue>, name: &str) -> (r: Result<i32, BindingError>)
    ensures
        match int_arg(found_value(found), name@) {
            Ok(x) => r == Ok::<i32, BindingError>(x),
            Err(e) => r matches Err(m) && error_value(m) == e,
        },
{
    match found {
        None => Err(BindingError::MissingParameter(ParamKind::Int, string_from(name))),
        Some(v) => match v {
            StoredParameterValue::Int(x) => Ok(*x),
            StoredParameterValue::Char(c) => Ok(*c as i32),
            StoredParameterValue::Long(l) => Ok(*l as i32),
            StoredParameterValue::Float(b) => Ok(f32_bits_as_int(*b, i32::MIN as i64, i32::MAX as i64) as i32),
            _ => Err(BindingError::NotCoercible(ParamKind::Int, string_from(name), copy_stored(v))),
        },
    }
}

fn float_arg_of(found: Option<&StoredParameterValue>, name: &str) -> (r: Result<u32, BindingError>)
    ensures
        match float_arg(found_value(found), name@) {
            Ok(x) => r == Ok::<u32, BindingError>(x),
            Err(e) => r matches Err(m) && error_value(m) == e,
        },
{
    match found {
        None => Err(BindingError::MissingParameter(ParamKind::Float, string_from(name))),
        Some(v) => match v {
            StoredParameterValue::Float(b) => Ok(*b),
            StoredParameterValue::Int(x) => Ok(i64_to_f32_bits(*x as i64)),
            StoredParameterValue::Char(c) => Ok(i64_to_f32_bits(*c as i64)),
            StoredParameterValue::Long(l) => Ok(i64_to_f32_bits(*l)),
            _ => Err(BindingError::NotCoercible(ParamKind::Float, string_from(name), copy_stored(v))),
        },
    }
}

/// Reads the parameter `found` (named `name`) as `kind` (see `schema_arg`).
pub fn schema_arg_of(kind: ParamKind, found: Option<&StoredParameterValue>, name: &str) -> (r: Result<
    BoundArg,
    BindingError,
>)
    ensures
        match schema_arg(kind, found_value(found), name@) {
            Ok(a) => r matches Ok(b) && arg_value(b) == a,
            Err(e) => r matches Err(m) && error_value(m) == e,
        },
{
    match kind {
        ParamKind::Int => Ok(BoundArg::Int(int_arg_of(found, name)?)),
        ParamKind::Float => Ok(BoundArg::Float(float_arg_of(found, name)?)),
        ParamKind::Bool => Ok(BoundArg::Bool(int_arg_of(found, name)? != 0)),
        ParamKind::OptionalBool => match int_arg_of(found, name) {
            Ok(x) => Ok(BoundArg::Bool(x != 0)),
            Err(_) => Ok(BoundArg::Bool(false)),
        },
        ParamKind::Range => match found {
            Some(StoredParameterValue::Range(r)) => Ok(BoundArg::Range(*r)),
            Some(v) => Err(BindingError::NotCoercible(ParamKind::Range, string_from(name), copy_stored(v))),
            None => Err(BindingError::MissingParameter(ParamKind::Range, string_from(name))),
        },
        ParamKind::Variable => match found {
            Some(StoredParameterValue::Variable(v)) => Ok(BoundArg::Variable(copy_variable(v))),
            _ => Err(BindingError::MissingParameter(ParamKind::Variable, string_from(name))),
        },
        ParamKind::OptionalVariable => match found {
            Some(StoredParameterValue::Variable(v)) => Ok(BoundArg::Variable(copy_variable(v))),
            _ => {
                let e = UserVariable::new();
                assert(variable_value(e).data =~= empty_variable_value().data);
                Ok(BoundArg::Variable(e))
            },
        },
        ParamKind::VariableRef => match found {
            Some(StoredParameterValue::VariableRef(Some(s))) => Ok(BoundArg::VariableRef(string_from(s.as_str()))),
            Some(StoredParameterValue::VariableRef(None)) => Err(BindingError::UnresolvedVariableRef(string_from(name))),
            Some(v) => Err(BindingError::NotCoercible(ParamKind::VariableRef, string_from(name), copy_stored(v))),
            None => Err(BindingError::MissingParameter(ParamKind::VariableRef, string_from(name))),
        },
    }
}

/// Once reading the arguments fails, it stays failed.
proof fn lemma_bound_args_error_stays(
    ps: Seq<(Seq<char>, StoredValue)>,
    schema: Seq<(Seq<char>, ParamKind)>,
    k: nat,
    m: nat,
)
    requires
        k <= m,
        bound_args(ps, schema, k) is Err,
    ensures
        bound_args(ps, schema, m) == bound_args(ps, schema, k),
    decreases m - k,
{
    if k < m {
        lemma_bound_args_error_stays(ps, schema, k, (m - 1) as nat);
    }
}

/// Builds the event that a matched binding sends (see `bound_event`).
pub fn instantiate_bound_event(resolved: &ResolvedBinding) -> (r: Result<BoundEvent, BindingError>)
    ensures
        match bound_event(resolved.output_event, params_view(resolved.parameters@)) {
            Ok(ev) => r matches Ok(b) && b.event_type == ev.0 && b.args@.map_values(|a: BoundArg| arg_value(a))
                == ev.1,
            Err(e) => r matches Err(m) && error_value(m) == e,
        },
{
    let t = match resolved.output_event {
        Some(t) => t,
        None => return Err(BindingError::MissingOutputEvent),
    };
    let schema = match event_output_schema(t) {
        Some(s) => s,
        None => return Err(BindingError::NotConstructible(t)),
    };
    let ghost ps = params_view(resolved.parameters@);
    let ghost sv = schema_view(schema@);
    let mut args: Vec<BoundArg> = Vec::new();
    assert(args@.map_values(|a: BoundArg| arg_value(a)) =~= Seq::<ArgValue>::empty());
    let mut k: usize = 0;
    while k < schema.len()
        invariant
            k <= schema@.len(),
            resolved.output_event == Some(t),
            output_schema(t) == Some(sv),
            ps == params_view(resolved.parameters@),
            sv == schema_view(schema@),
            sv.len() == schema@.len(),
            bound_args(ps, sv, k as nat) == Ok::<Seq<ArgValue>, BindingErrorValue>(
                args@.map_values(|a: BoundArg| arg_value(a)),
            ),
        decreases schema@.len() - k,
    {
        let name = schema[k].0;
        let kind = schema[k].1;
        assert(sv[k as int] == (name@, kind));
        let found = find_parameter(&resolved.parameters, name);
        assert(found_value(found) == param_from(ps, name@, 0));
        match schema_arg_of(kind, found, name) {
            Ok(a) => {
                let ghost before = args@;
                args.push(a);
                assert(args@.map_values(|a: BoundArg| arg_value(a)) =~= before.map_values(|a: BoundArg| arg_value(a)).push(
                    arg_value(a),
                ));
            },
            Err(e) => {
                proof {
                    lemma_bound_args_error_stays(ps, sv, (k + 1) as nat, sv.len());
                }
                return Err(e);
            },
        }
        k = k + 1;
    }
    Ok(BoundEvent { event_type: t, args })
}

/// What a binding keeps of a value computed for a parameter of type
/// `dtype`: the value converted to that type, the variable itself, or the
/// variable's name.
pub open spec fn stored_for(dtype: CoreDataType, v: UserVariable) -> StoredValue {
    match dtype {
        CoreDataType::Char => StoredValue::Char(v.char_value()),
        CoreDataType::Int => StoredValue::Int(v.int_value()),
        CoreDataType::Long => StoredValue::Long(v.long_value()),
        CoreDataType::Float => StoredValue::Float(v.float_bits_value()),
        CoreDataType::Range => StoredValue::Range(v.range_value()),
        CoreDataType::Variable => StoredValue::Variable(variable_value(v)),
        CoreDataType::VariableRef => StoredValue::VariableRef(
            match v.name {
                Some(n) => Some(n@),
                None => None,
            },
        ),
        CoreDataType::Invalid => StoredValue::VariableRef(None),
    }
}

/// Keeps a value computed for a parameter of type `dtype` (see
/// `stored_for`).
pub fn store_parameter_value(dtype: CoreDataType, value: &UserVariable) -> (r: StoredParameterValue)
    ensures
        stored_value(r) == stored_for(dtype, *value),
{
    match dtype {
        CoreDataType::Char => StoredParameterValue::Char(value.as_char()),
        CoreDataType::Int => StoredParameterValue::Int(value.as_i32()),
        CoreDataType::Long => StoredParameterValue::Long(value.as_i64()),
        CoreDataType::Float => StoredParameterValue::Float(value.as_f32_bits()),
        CoreDataType::Range => StoredParameterValue::Range(value.as_range()),
        CoreDataType::Variable => StoredParameterValue::Variable(copy_variable(value)),
        CoreDataType::VariableRef => StoredParameterValue::VariableRef(
            match &value.name {
                Some(n) => Some(string_from(n.as_str())),
                None => None,
            },
        ),
        CoreDataType::Invalid => StoredParameterValue::VariableRef(None),
    }
}

/// Law: a `GoSub` event built from a binding carries, in this order, the
/// values of its parameters `sub`, `param1`, `param2`, `param3`.
pub proof fn law_go_sub_arguments(ps: Seq<(Seq<char>, StoredValue)>, a0: i32, a1: u32, a2: u32, a3: u32)
    requires
        param_from(ps, "sub"@, 0) == Some(StoredValue::Int(a0)),
        param_from(ps, "param1"@, 0) == Some(StoredValue::Float(a1)),
        param_from(ps, "param2"@, 0) == Some(StoredValue::Float(a2)),
        param_from(ps, "param3"@, 0) == Some(StoredValue::Float(a3)),
    ensures
        bound_event(Some(EventType::GoSub), ps) == Ok::<(EventType, Seq<ArgValue>), BindingErrorValue>(
            (EventType::GoSub, seq![ArgValue::Int(a0), ArgValue::Float(a1), ArgValue::Float(a2), ArgValue::Float(a3)]),
        ),
{
    reveal_with_fuel(bound_args, 5);
    let s = output_schema(EventType::GoSub).unwrap();
    assert(bound_args(ps, s, 4) is Ok);
    assert(bound_args(ps, s, 4)->Ok_0 =~= seq![ArgValue::Int(a0), ArgValue::Float(a1), ArgValue::Float(a2), ArgValue::Float(a3)]);
}

/// Law: a `ALSAMixerControlSet` event built from a binding carries, in this order, the
/// values of its parameters `hwid`, `numid`, `val1`, `val2`, `val3`, `val4`.
pub proof fn law_alsa_mixer_control_set_arguments(ps: Seq<(Seq<char>, StoredValue)>, a0: i32, a1: i32, a2: i32, a3: i32, a4: i32, a5: i32)
    requires
        param_from(ps, "hwid"@, 0) == Some(StoredValue::Int(a0)),
        param_from(ps, "numid"@, 0) == Some(StoredValue::Int(a1)),
        param_from(ps, "val1"@, 0) == Some(StoredValue::Int(a2)),
        param_from(ps, "val2"@, 0) == Some(StoredValue::Int(a3)),
        param_from(ps, "val3"@, 0) == Some(StoredValue::Int(a4)),
        param_from(ps, "val4"@, 0) == Some(StoredValue::Int(a5)),
    ensures
        bound_event(Some(EventType::ALSAMixerControlSet), ps) == Ok::<(EventType, Seq<ArgValue>), BindingErrorValue>(
            (EventType::ALSAMixerControlSet, seq![ArgValue::Int(a0), ArgValue::Int(a1), ArgValue::Int(a2), ArgValue::Int(a3), ArgValue::Int(a4), ArgValue::Int(a5)]),
        ),
{
    reveal_with_fuel(bound_args, 7);
    let s = output_schema(EventType::ALSAMixerControlSet).unwrap();
    assert(bound_args(ps, s, 6) is Ok);
    assert(bound_args(ps, s, 6)->Ok_0 =~= seq![ArgValue::Int(a0), ArgValue::Int(a1), ArgValue::Int(a2), ArgValue::Int(a3), ArgValue::Int(a4), ArgValue::Int(a5)]);
}

/// Law: a `ParamSetGetAbsoluteParamIdx` event built from a binding carries, in this order, the
/// values of its parameters `interfaceid`, `displayid`, `paramidx`, `absidx`.
pub proof fn law_param_set_get_absolute_param_idx_arguments(ps: Seq<(Seq<char>, StoredValue)>, a0: i32, a1: i32, a2: i32, a3: Seq<char>)
    requires
        param_from(ps, "interfaceid"@, 0) == Some(StoredValue::Int(a0)),
        param_from(ps, "displayid"@, 0) == Some(StoredValue::Int(a1)),
        param_from(ps, "paramidx"@, 0) == Some(StoredValue::Int(a2)),
        param_from(ps, "absidx"@, 0) == Some(StoredValue::VariableRef(Some(a3))),
    ensures
        bound_event(Some(EventType::ParamSetGetAbsoluteParamIdx), ps) == Ok::<(EventType, Seq<ArgValue>), BindingErrorValue>(
            (EventType::ParamSetGetAbsoluteParamIdx, seq![ArgValue::Int(a0), ArgValue::Int(a1), ArgValue::Int(a2), ArgValue::VariableRef(a3)]),
        ),
{
    reveal_with_fuel(bound_args, 5);
    let s = output_schema(EventType::ParamSetGetAbsoluteParamIdx).unwrap();
    assert(bound_args(ps, s, 4) is Ok);
    assert(bound_args(ps, s, 4)->Ok_0 =~= seq![ArgValue::Int(a0), ArgValue::Int(a1), ArgValue::Int(a2), ArgValue::VariableRef(a3)]);
}

/// Law: a `ParamSetGetParam` event built from a binding carries, in this order, the
/// values of its parameters `interfaceid`, `displayid`, `paramidx`, `var`.
pub proof fn law_param_set_get_param_arguments(ps: Seq<(Seq<char>, StoredValue)>, a0: i32, a1: i32, a2: i32, a3: Seq<char>)
    requires
        param_from(ps, "interfaceid"@, 0) == Some(StoredValue::Int(a0)),
        param_from(ps, "displayid"@, 0) == Some(StoredValue::Int(a1)),
        param_from(ps, "paramidx"@, 0) == Some(StoredValue::Int(a2)),
        param_from(ps, "var"@, 0) == Some(StoredValue::VariableRef(Some(a3))),
    ensures
        bound_event(Some(EventType::ParamSetGetParam), ps) == Ok::<(EventType, Seq<ArgValue>), BindingErrorValue>(
            (EventType::ParamSetGetParam, seq![ArgValue::Int(a0), ArgValue::Int(a1), ArgValue::Int(a2), ArgValue::VariableRef(a3)]),
        ),
{
    reveal_with_fuel(bound_args, 5);
    let s = output_schema(EventType::ParamSetGetParam).unwrap();
    assert(bound_args(ps, s, 4) is Ok);
    assert(bound_args(ps, s, 4)->Ok_0 =~= seq![ArgValue::Int(a0), ArgValue::Int(a1), ArgValue::Int(a2), ArgValue::VariableRef(a3)]);
}

/// Law: a `ParamSetSetParam` event built from a binding carries, in this order, the
/// values of its parameters `interfaceid`, `displayid`, `paramidx`, `value`.
pub proof fn law_param_set_set_param_arguments(ps: Seq<(Seq<char>, StoredValue)>, a0: i32, a1: i32, a2: i32, a3: u32)
    requires
        param_from(ps, "interfaceid"@, 0) == Some(StoredValue::Int(a0)),
        param_from(ps, "displayid"@, 0) == Some(StoredValue::Int(a1)),
        param_from(ps, "paramidx"@, 0) == Some(StoredValue::Int(a2)),
        param_from(ps, "value"@, 0) == Some(StoredValue::Float(a3)),
    ensures
        bound_event(Some(EventType::ParamSetSetParam), ps) == Ok::<(EventType, Seq<ArgValue>), BindingErrorValue>(
            (EventType::ParamSetSetParam, seq![ArgValue::Int(a0), ArgValue::Int(a1), ArgValue::Int(a2), ArgValue::Float(a3)]),
        ),
{
    reveal_with_fuel(bound_args, 5);
    let s = output_schema(EventType::ParamSetSetParam).unwrap();
    assert(bound_args(ps, s, 4) is Ok);
    assert(bound_args(ps, s, 4)->Ok_0 =~= seq![ArgValue::Int(a0), ArgValue::Int(a1), ArgValue::Int(a2), ArgValue::Float(a3)]);
}

/// Law: a `LogFaderVolToLinear` event built from a binding carries, in this order, the
/// values of its parameters `var`, `fadervol`, `scale`.
pub proof fn law_log_fader_vol_to_linear_arguments(ps: Seq<(Seq<char>, StoredValue)>, a0: Seq<char>, a1: VariableValue, a2: u32)
    requires
        param_from(ps, "var"@, 0) == Some(StoredValue::VariableRef(Some(a0))),
        param_from(ps, "fadervol"@, 0) == Some(StoredValue::Variable(a1)),
        param_from(ps, "scale"@, 0) == Some(StoredValue::Float(a2)),
    ensures
        bound_event(Some(EventType::LogFaderVolToLinear), ps) == Ok::<(EventType, Seq<ArgValue>), BindingErrorValue>(
            (EventType::LogFaderVolToLinear, seq![ArgValue::VariableRef(a0), ArgValue::Variable(a1), ArgValue::Float(a2)]),
        ),
{
    reveal_with_fuel(bound_args, 4);
    let s = output_schema(EventType::LogFaderVolToLinear).unwrap();
    assert(bound_args(ps, s, 3) is Ok);
    assert(bound_args(ps, s, 3)->Ok_0 =~= seq![ArgValue::VariableRef(a0), ArgValue::Variable(a1), ArgValue::Float(a2)]);
}

/// Law: a `TriggerLoop` event built from a binding carries, in this order, the
/// values of its parameters `loopid`, `vol`.
pub proof fn law_trigger_loop_arguments(ps: Seq<(Seq<char>, StoredValue)>, a0: i32, a1: u32)
    requires
        param_from(ps, "loopid"@, 0) == Some(StoredValue::Int(a0)),
        param_from(ps, "vol"@, 0) == Some(StoredValue::Float(a1)),
    ensures
        bound_event(Some(EventType::TriggerLoop), ps) == Ok::<(EventType, Seq<ArgValue>), BindingErrorValue>(
            (EventType::TriggerLoop, seq![ArgValue::Int(a0), ArgValue::Float(a1)]),
        ),
{
    reveal_with_fuel(bound_args, 3);
    let s = output_schema(EventType::TriggerLoop).unwrap();
    assert(bound_args(ps, s, 2) is Ok);
    assert(bound_args(ps, s, 2)->Ok_0 =~= seq![ArgValue::Int(a0), ArgValue::Float(a1)]);
}

/// Law: a `SetInVolume` event built from a binding carries, in this order, the
/// values of its parameters `input`, `vol`, `fadervol`.
pub proof fn law_set_in_volume_arguments(ps: Seq<(Seq<char>, StoredValue)>, a0: i32, a1: u32, a2: u32)
    requires
        param_from(ps, "input"@, 0) == Some(StoredValue::Int(a0)),
        param_from(ps, "vol"@, 0) == Some(StoredValue::Float(a1)),
        param_from(ps, "fadervol"@, 0) == Some(StoredValue::Float(a2)),
    ensures
        bound_event(Some(EventType::SetInVolume), ps) == Ok::<(EventType, Seq<ArgValue>), BindingErrorValue>(
            (EventType::SetInVolume, seq![ArgValue::Int(a0), ArgValue::Float(a1), ArgValue::Float(a2)]),
        ),
{
    reveal_with_fuel(bound_args, 4);
    let s = output_schema(EventType::SetInVolume).unwrap();
    assert(bound_args(ps, s, 3) is Ok);
    assert(bound_args(ps, s, 3)->Ok_0 =~= seq![ArgValue::Int(a0), ArgValue::Float(a1), ArgValue::Float(a2)]);
}

/// Law: a `SlideInVolume` event built from a binding carries, in this order, the
/// values of its parameters `input`, `slide`.
pub proof fn law_slide_in_volume_arguments(ps: Seq<(Seq<char>, StoredValue)>, a0: i32, a1: u32)
    requires
        param_from(ps, "input"@, 0) == Some(StoredValue::Int(a0)),
        param_from(ps, "slide"@, 0) == Some(StoredValue::Float(a1)),
    ensures
        bound_event(Some(EventType::SlideInVolume), ps) == Ok::<(EventType, Seq<ArgValue>), BindingErrorValue>(
            (EventType::SlideInVolume, seq![ArgValue::Int(a0), ArgValue::Float(a1)]),
        ),
{
    reveal_with_fuel(bound_args, 3);
    let s = output_schema(EventType::SlideInVolume).unwrap();
    assert(bound_args(ps, s, 2) is Ok);
    assert(bound_args(ps, s, 2)->Ok_0 =~= seq![ArgValue::Int(a0), ArgValue::Float(a1)]);
}

/// Law: a `StartInterface` event built from a binding carries, in this order, the
/// values of its parameters `interfaceid`.
pub proof fn law_start_interface_arguments(ps: Seq<(Seq<char>, StoredValue)>, a0: i32)
    requires
        param_from(ps, "interfaceid"@, 0) == Some(StoredValue::Int(a0)),
    ensures
        bound_event(Some(EventType::StartInterface), ps) == Ok::<(EventType, Seq<ArgValue>), BindingErrorValue>(
            (EventType::StartInterface, seq![ArgValue::Int(a0)]),
        ),
{
    reveal_with_fuel(bound_args, 2);
    let s = output_schema(EventType::StartInterface).unwrap();
    assert(bound_args(ps, s, 1) is Ok);
    assert(bound_args(ps, s, 1)->Ok_0 =~= seq![ArgValue::Int(a0)]);
}

/// Law: a `VideoSwitchInterface` event built from a binding carries, in this order, the
/// values of its parameters `interfaceid`.
pub proof fn law_video_switch_interface_arguments(ps: Seq<(Seq<char>, StoredValue)>, a0: i32)
    requires
        param_from(ps, "interfaceid"@, 0) == Some(StoredValue::Int(a0)),
    ensures
        bound_event(Some(EventType::VideoSwitchInterface), ps) == Ok::<(EventType, Seq<ArgValue>), BindingErrorValue>(
            (EventType::VideoSwitchInterface, seq![ArgValue::Int(a0)]),
        ),
{
    reveal_with_fuel(bound_args, 2);
    let s = output_schema(EventType::VideoSwitchInterface).unwrap();
    assert(bound_args(ps, s, 1) is Ok);
    assert(bound_args(ps, s, 1)->Ok_0 =~= seq![ArgValue::Int(a0)]);
}

/// Law: a `VideoShowDisplay` event built from a binding carries, in this order, the
/// values of its parameters `interfaceid`, `displayid`, `show`.
pub proof fn law_video_show_display_arguments(ps: Seq<(Seq<char>, StoredValue)>, a0: i32, a1: i32, a2: i32)
    requires
        param_from(ps, "interfaceid"@, 0) == Some(StoredValue::Int(a0)),
        param_from(ps, "displayid"@, 0) == Some(StoredValue::Int(a1)),
        param_from(ps, "show"@, 0) == Some(StoredValue::Int(a2)),
    ensures
        bound_event(Some(EventType::VideoShowDisplay), ps) == Ok::<(EventType, Seq<ArgValue>), BindingErrorValue>(
            (EventType::VideoShowDisplay, seq![ArgValue::Int(a0), ArgValue::Int(a1), ArgValue::Bool(a2 != 0)]),
        ),
{
    reveal_with_fuel(bound_args, 4);
    let s = output_schema(EventType::VideoShowDisplay).unwrap();
    assert(bound_args(ps, s, 3) is Ok);
    assert(bound_args(ps, s, 3)->Ok_0 =~= seq![ArgValue::Int(a0), ArgValue::Int(a1), ArgValue::Bool(a2 != 0)]);
}

/// Law: a `VideoShowLayout` event built from a binding carries, in this order, the
/// values of its parameters `interfaceid`, `layoutid`, `show`, `hideothers`.
pub proof fn law_video_show_layout_arguments(ps: Seq<(Seq<char>, StoredValue)>, a0: i32, a1: i32, a2: i32, a3: i32)
    requires
        param_from(ps, "interfaceid"@, 0) == Some(StoredValue::Int(a0)),
        param_from(ps, "layoutid"@, 0) == Some(StoredValue::Int(a1)),
        param_from(ps, "show"@, 0) == Some(StoredValue::Int(a2)),
        param_from(ps, "hideothers"@, 0) == Some(StoredValue::Int(a3)),
    ensures
        bound_event(Some(EventType::VideoShowLayout), ps) == Ok::<(EventType, Seq<ArgValue>), BindingErrorValue>(
            (EventType::VideoShowLayout, seq![ArgValue::Int(a0), ArgValue::Int(a1), ArgValue::Bool(a2 != 0), ArgValue::Bool(a3 != 0)]),
        ),
{
    reveal_with_fuel(bound_args, 5);
    let s = output_schema(EventType::VideoShowLayout).unwrap();
    assert(bound_args(ps, s, 4) is Ok);
    assert(bound_args(ps, s, 4)->Ok_0 =~= seq![ArgValue::Int(a0), ArgValue::Int(a1), ArgValue::Bool(a2 != 0), ArgValue::Bool(a3 != 0)]);
}

/// Law: a `VideoShowHelp` event built from a binding carries, in this order, the
/// values of its parameters `page`.
pub proof fn law_video_show_help_arguments(ps: Seq<(Seq<char>, StoredValue)>, a0: i32)
    requires
        param_from(ps, "page"@, 0) == Some(StoredValue::Int(a0)),
    ensures
        bound_event(Some(EventType::VideoShowHelp), ps) == Ok::<(EventType, Seq<ArgValue>), BindingErrorValue>(
            (EventType::VideoShowHelp, seq![ArgValue::Int(a0)]),
        ),
{
    reveal_with_fuel(bound_args, 2);
    let s = output_schema(EventType::VideoShowHelp).unwrap();
    assert(bound_args(ps, s, 1) is Ok);
    assert(bound_args(ps, s, 1)->Ok_0 =~= seq![ArgValue::Int(a0)]);
}

/// Law: a `VideoFullScreen` event built from a binding carries, in this order, the
/// values of its parameters `fullscreen`.
pub proof fn law_video_full_screen_arguments(ps: Seq<(Seq<char>, StoredValue)>, a0: i32)
    requires
        param_from(ps, "fullscreen"@, 0) == Some(StoredValue::Int(a0)),
    ensures
        bound_event(Some(EventType::VideoFullScreen), ps) == Ok::<(EventType, Seq<ArgValue>), BindingErrorValue>(
            (EventType::VideoFullScreen, seq![ArgValue::Bool(a0 != 0)]),
        ),
{
    reveal_with_fuel(bound_args, 2);
    let s = output_schema(EventType::VideoFullScreen).unwrap();
    assert(bound_args(ps, s, 1) is Ok);
    assert(bound_args(ps, s, 1)->Ok_0 =~= seq![ArgValue::Bool(a0 != 0)]);
}

/// Law: a `ShowDebugInfo` event built from a binding carries, in this order, the
/// values of its parameters `show`.
pub proof fn law_show_debug_info_arguments(ps: Seq<(Seq<char>, StoredValue)>, a0: i32)
    requires
        param_from(ps, "show"@, 0) == Some(StoredValue::Int(a0)),
    ensures
        bound_event(Some(EventType::ShowDebugInfo), ps) == Ok::<(EventType, Seq<ArgValue>), BindingErrorValue>(
            (EventType::ShowDebugInfo, seq![ArgValue::Bool(a0 != 0)]),
        ),
{
    reveal_with_fuel(bound_args, 2);
    let s = output_schema(EventType::ShowDebugInfo).unwrap();
    assert(bound_args(ps, s, 1) is Ok);
    assert(bound_args(ps, s, 1)->Ok_0 =~= seq![ArgValue::Bool(a0 != 0)]);
}

/// Law: a `VideoShowLoop` event built from a binding carries, in this order, the
/// values of its parameters `interfaceid`, `layoutid`, `loopid`.
pub proof fn law_video_show_loop_arguments(ps: Seq<(Seq<char>, StoredValue)>, a0: i32, a1: i32, a2: Range)
    requires
        param_from(ps, "interfaceid"@, 0) == Some(StoredValue::Int(a0)),
        param_from(ps, "layoutid"@, 0) == Some(StoredValue::Int(a1)),
        param_from(ps, "loopid"@, 0) == Some(StoredValue::Range(a2)),
    ensures
        bound_event(Some(EventType::VideoShowLoop), ps) == Ok::<(EventType, Seq<ArgValue>), BindingErrorValue>(
            (EventType::VideoShowLoop, seq![ArgValue::Int(a0), ArgValue::Int(a1), ArgValue::Range(a2)]),
        ),
{
    reveal_with_fuel(bound_args, 4);
    let s = output_schema(EventType::VideoShowLoop).unwrap();
    assert(bound_args(ps, s, 3) is Ok);
    assert(bound_args(ps, s, 3)->Ok_0 =~= seq![ArgValue::Int(a0), ArgValue::Int(a1), ArgValue::Range(a2)]);
}

/// Law: a `VideoShowSnapshotPage` event built from a binding carries, in this order, the
/// values of its parameters `interfaceid`, `displayid`, `page`.
pub proof fn law_video_show_snapshot_page_arguments(ps: Seq<(Seq<char>, StoredValue)>, a0: i32, a1: i32, a2: i32)
    requires
        param_from(ps, "interfaceid"@, 0) == Some(StoredValue::Int(a0)),
        param_from(ps, "displayid"@, 0) == Some(StoredValue::Int(a1)),
        param_from(ps, "page"@, 0) == Some(StoredValue::Int(a2)),
    ensures
        bound_event(Some(EventType::VideoShowSnapshotPage), ps) == Ok::<(EventType, Seq<ArgValue>), BindingErrorValue>(
            (EventType::VideoShowSnapshotPage, seq![ArgValue::Int(a0), ArgValue::Int(a1), ArgValue::Int(a2)]),
        ),
{
    reveal_with_fuel(bound_args, 4);
    let s = output_schema(EventType::VideoShowSnapshotPage).unwrap();
    assert(bound_args(ps, s, 3) is Ok);
    assert(bound_args(ps, s, 3)->Ok_0 =~= seq![ArgValue::Int(a0), ArgValue::Int(a1), ArgValue::Int(a2)]);
}

/// Law: a `VideoShowParamSetBank` event built from a binding carries, in this order, the
/// values of its parameters `interfaceid`, `displayid`, `bank`.
pub proof fn law_video_show_param_set_bank_arguments(ps: Seq<(Seq<char>, StoredValue)>, a0: i32, a1: i32, a2: i32)
    requires
        param_from(ps, "interfaceid"@, 0) == Some(StoredValue::Int(a0)),
        param_from(ps, "displayid"@, 0) == Some(StoredValue::Int(a1)),
        param_from(ps, "bank"@, 0) == Some(StoredValue::Int(a2)),
    ensures
        bound_event(Some(EventType::VideoShowParamSetBank), ps) == Ok::<(EventType, Seq<ArgValue>), BindingErrorValue>(
            (EventType::VideoShowParamSetBank, seq![ArgValue::Int(a0), ArgValue::Int(a1), ArgValue::Int(a2)]),
        ),
{
    reveal_with_fuel(bound_args, 4);
    let s = output_schema(EventType::VideoShowParamSetBank).unwrap();
    assert(bound_args(ps, s, 3) is Ok);
    assert(bound_args(ps, s, 3)->Ok_0 =~= seq![ArgValue::Int(a0), ArgValue::Int(a1), ArgValue::Int(a2)]);
}

/// Law: a `VideoShowParamSetPage` event built from a binding carries, in this order, the
/// values of its parameters `interfaceid`, `displayid`, `page`.
pub proof fn law_video_show_param_set_page_arguments(ps: Seq<(Seq<char>, StoredValue)>, a0: i32, a1: i32, a2: i32)
    requires
        param_from(ps, "interfaceid"@, 0) == Some(StoredValue::Int(a0)),
        param_from(ps, "displayid"@, 0) == Some(StoredValue::Int(a1)),
        param_from(ps, "page"@, 0) == Some(StoredValue::Int(a2)),
    ensures
        bound_event(Some(EventType::VideoShowParamSetPage), ps) == Ok::<(EventType, Seq<ArgValue>), BindingErrorValue>(
            (EventType::VideoShowParamSetPage, seq![ArgValue::Int(a0), ArgValue::Int(a1), ArgValue::Int(a2)]),
        ),
{
    reveal_with_fuel(bound_args, 4);
    let s = output_schema(EventType::VideoShowParamSetPage).unwrap();
    assert(bound_args(ps, s, 3) is Ok);
    assert(bound_args(ps, s, 3)->Ok_0 =~= seq![ArgValue::Int(a0), ArgValue::Int(a1), ArgValue::Int(a2)]);
}

/// Law: a `FluidSynthEnable` event built from a binding carries, in this order, the
/// values of its parameters `enable`.
pub proof fn law_fluid_synth_enable_arguments(ps: Seq<(Seq<char>, StoredValue)>, a0: i32)
    requires
        param_from(ps, "enable"@, 0) == Some(StoredValue::Int(a0)),
    ensures
        bound_event(Some(EventType::FluidSynthEnable), ps) == Ok::<(EventType, Seq<ArgValue>), BindingErrorValue>(
            (EventType::FluidSynthEnable, seq![ArgValue::Bool(a0 != 0)]),
        ),
{
    reveal_with_fuel(bound_args, 2);
    let s = output_schema(EventType::FluidSynthEnable).unwrap();
    assert(bound_args(ps, s, 1) is Ok);
    assert(bound_args(ps, s, 1)->Ok_0 =~= seq![ArgValue::Bool(a0 != 0)]);
}

/// Law: a `SetMidiTuning` event built from a binding carries, in this order, the
/// values of its parameters `tuning`.
pub proof fn law_set_midi_tuning_arguments(ps: Seq<(Seq<char>, StoredValue)>, a0: u32)
    requires
        param_from(ps, "tuning"@, 0) == Some(StoredValue::Float(a0)),
    ensures
        bound_event(Some(EventType::SetMidiTuning), ps) == Ok::<(EventType, Seq<ArgValue>), BindingErrorValue>(
            (EventType::SetMidiTuning, seq![ArgValue::Float(a0)]),
        ),
{
    reveal_with_fuel(bound_args, 2);
    let s = output_schema(EventType::SetMidiTuning).unwrap();
    assert(bound_args(ps, s, 1) is Ok);
    assert(bound_args(ps, s, 1)->Ok_0 =~= seq![ArgValue::Float(a0)]);
}

/// Law: a `SlideMasterInVolume` event built from a binding carries, in this order, the
/// values of its parameters `slide`.
pub proof fn law_slide_master_in_volume_arguments(ps: Seq<(Seq<char>, StoredValue)>, a0: u32)
    requires
        param_from(ps, "slide"@, 0) == Some(StoredValue::Float(a0)),
    ensures
        bound_event(Some(EventType::SlideMasterInVolume), ps) == Ok::<(EventType, Seq<ArgValue>), BindingErrorValue>(
            (EventType::SlideMasterInVolume, seq![ArgValue::Float(a0)]),
        ),
{
    reveal_with_fuel(bound_args, 2);
    let s = output_schema(EventType::SlideMasterInVolume).unwrap();
    assert(bound_args(ps, s, 1) is Ok);
    assert(bound_args(ps, s, 1)->Ok_0 =~= seq![ArgValue::Float(a0)]);
}

/// Law: a `SlideMasterOutVolume` event built from a binding carries, in this order, the
/// values of its parameters `slide`.
pub proof fn law_slide_master_out_volume_arguments(ps: Seq<(Seq<char>, StoredValue)>, a0: u32)
    requires
        param_from(ps, "slide"@, 0) == Some(StoredValue::Float(a0)),
    ensures
        bound_event(Some(EventType::SlideMasterOutVolume), ps) == Ok::<(EventType, Seq<ArgValue>), BindingErrorValue>(
            (EventType::SlideMasterOutVolume, seq![ArgValue::Float(a0)]),
        ),
{
    reveal_with_fuel(bound_args, 2);
    let s = output_schema(EventType::SlideMasterOutVolume).unwrap();
    assert(bound_args(ps, s, 1) is Ok);
    assert(bound_args(ps, s, 1)->Ok_0 =~= seq![ArgValue::Float(a0)]);
}

/// Law: a `BrowserMoveToItem` event built from a binding carries, in this order, the
/// values of its parameters `browserid`, `adjust`, `jumpadjust`.
pub proof fn law_browser_move_to_item_arguments(ps: Seq<(Seq<char>, StoredValue)>, a0: i32, a1: i32, a2: i32)
    requires
        param_from(ps, "browserid"@, 0) == Some(StoredValue::Int(a0)),
        param_from(ps, "adjust"@, 0) == Some(StoredValue::Int(a1)),
        param_from(ps, "jumpadjust"@, 0) == Some(StoredValue::Int(a2)),
    ensures
        bound_event(Some(EventType::BrowserMoveToItem), ps) == Ok::<(EventType, Seq<ArgValue>), BindingErrorValue>(
            (EventType::BrowserMoveToItem, seq![ArgValue::Int(a0), ArgValue::Int(a1), ArgValue::Int(a2)]),
        ),
{
    reveal_with_fuel(bound_args, 4);
    let s = output_schema(EventType::BrowserMoveToItem).unwrap();
    assert(bound_args(ps, s, 3) is Ok);
    assert(bound_args(ps, s, 3)->Ok_0 =~= seq![ArgValue::Int(a0), ArgValue::Int(a1), ArgValue::Int(a2)]);
}

/// Law: a `BrowserMoveToItemAbsolute` event built from a binding carries, in this order, the
/// values of its parameters `browserid`, `idx`.
pub proof fn law_browser_move_to_item_absolute_arguments(ps: Seq<(Seq<char>, StoredValue)>, a0: i32, a1: i32)
    requires
        param_from(ps, "browserid"@, 0) == Some(StoredValue::Int(a0)),
        param_from(ps, "idx"@, 0) == Some(StoredValue::Int(a1)),
    ensures
        bound_event(Some(EventType::BrowserMoveToItemAbsolute), ps) == Ok::<(EventType, Seq<ArgValue>), BindingErrorValue>(
            (EventType::BrowserMoveToItemAbsolute, seq![ArgValue::Int(a0), ArgValue::Int(a1)]),
        ),
{
    reveal_with_fuel(bound_args, 3);
    let s = output_schema(EventType::BrowserMoveToItemAbsolute).unwrap();
    assert(bound_args(ps, s, 2) is Ok);
    assert(bound_args(ps, s, 2)->Ok_0 =~= seq![ArgValue::Int(a0), ArgValue::Int(a1)]);
}

/// Law: a `BrowserSelectItem` event built from a binding carries, in this order, the
/// values of its parameters `browserid`.
pub proof fn law_browser_select_item_arguments(ps: Seq<(Seq<char>, StoredValue)>, a0: i32)
    requires
        param_from(ps, "browserid"@, 0) == Some(StoredValue::Int(a0)),
    ensures
        bound_event(Some(EventType::BrowserSelectItem), ps) == Ok::<(EventType, Seq<ArgValue>), BindingErrorValue>(
            (EventType::BrowserSelectItem, seq![ArgValue::Int(a0)]),
        ),
{
    reveal_with_fuel(bound_args, 2);
    let s = output_schema(EventType::BrowserSelectItem).unwrap();
    assert(bound_args(ps, s, 1) is Ok);
    assert(bound_args(ps, s, 1)->Ok_0 =~= seq![ArgValue::Int(a0)]);
}

/// Law: a `BrowserRenameItem` event built from a binding carries, in this order, the
/// values of its parameters `browserid`.
pub proof fn law_browser_rename_item_arguments(ps: Seq<(Seq<char>, StoredValue)>, a0: i32)
    requires
        param_from(ps, "browserid"@, 0) == Some(StoredValue::Int(a0)),
    ensures
        bound_event(Some(EventType::BrowserRenameItem), ps) == Ok::<(EventType, Seq<ArgValue>), BindingErrorValue>(
            (EventType::BrowserRenameItem, seq![ArgValue::Int(a0)]),
        ),
{
    reveal_with_fuel(bound_args, 2);
    let s = output_schema(EventType::BrowserRenameItem).unwrap();
    assert(bound_args(ps, s, 1) is Ok);
    assert(bound_args(ps, s, 1)->Ok_0 =~= seq![ArgValue::Int(a0)]);
}

/// Law: a `BrowserItemBrowsed` event built from a binding carries, in this order, the
/// values of its parameters `browserid`.
pub proof fn law_browser_item_browsed_arguments(ps: Seq<(Seq<char>, StoredValue)>, a0: i32)
    requires
        param_from(ps, "browserid"@, 0) == Some(StoredValue::Int(a0)),
    ensures
        bound_event(Some(EventType::BrowserItemBrowsed), ps) == Ok::<(EventType, Seq<ArgValue>), BindingErrorValue>(
            (EventType::BrowserItemBrowsed, seq![ArgValue::Int(a0)]),
        ),
{
    reveal_with_fuel(bound_args, 2);
    let s = output_schema(EventType::BrowserItemBrowsed).unwrap();
    assert(bound_args(ps, s, 1) is Ok);
    assert(bound_args(ps, s, 1)->Ok_0 =~= seq![ArgValue::Int(a0)]);
}

/// Law: a `PatchBrowserMoveToBank` event built from a binding carries, in this order, the
/// values of its parameters `direction`.
pub proof fn law_patch_browser_move_to_bank_arguments(ps: Seq<(Seq<char>, StoredValue)>, a0: i32)
    requires
        param_from(ps, "direction"@, 0) == Some(StoredValue::Int(a0)),
    ensures
        bound_event(Some(EventType::PatchBrowserMoveToBank), ps) == Ok::<(EventType, Seq<ArgValue>), BindingErrorValue>(
            (EventType::PatchBrowserMoveToBank, seq![ArgValue::Int(a0)]),
        ),
{
    reveal_with_fuel(bound_args, 2);
    let s = output_schema(EventType::PatchBrowserMoveToBank).unwrap();
    assert(bound_args(ps, s, 1) is Ok);
    assert(bound_args(ps, s, 1)->Ok_0 =~= seq![ArgValue::Int(a0)]);
}

/// Law: a `PatchBrowserMoveToBankByIndex` event built from a binding carries, in this order, the
/// values of its parameters `idx`.
pub proof fn law_patch_browser_move_to_bank_by_index_arguments(ps: Seq<(Seq<char>, StoredValue)>, a0: i32)
    requires
        param_from(ps, "idx"@, 0) == Some(StoredValue::Int(a0)),
    ensures
        bound_event(Some(EventType::PatchBrowserMoveToBankByIndex), ps) == Ok::<(EventType, Seq<ArgValue>), BindingErrorValue>(
            (EventType::PatchBrowserMoveToBankByIndex, seq![ArgValue::Int(a0)]),
        ),
{
    reveal_with_fuel(bound_args, 2);
    let s = output_schema(EventType::PatchBrowserMoveToBankByIndex).unwrap();
    assert(bound_args(ps, s, 1) is Ok);
    assert(bound_args(ps, s, 1)->Ok_0 =~= seq![ArgValue::Int(a0)]);
}

/// Law: a `SetMasterInVolume` event built from a binding carries, in this order, the
/// values of its parameters `vol`, `fadervol`.
pub proof fn law_set_master_in_volume_arguments(ps: Seq<(Seq<char>, StoredValue)>, a0: u32, a1: u32)
    requires
        param_from(ps, "vol"@, 0) == Some(StoredValue::Float(a0)),
        param_from(ps, "fadervol"@, 0) == Some(StoredValue::Float(a1)),
    ensures
        bound_event(Some(EventType::SetMasterInVolume), ps) == Ok::<(EventType, Seq<ArgValue>), BindingErrorValue>(
            (EventType::SetMasterInVolume, seq![ArgValue::Float(a0), ArgValue::Float(a1)]),
        ),
{
    reveal_with_fuel(bound_args, 3);
    let s = output_schema(EventType::SetMasterInVolume).unwrap();
    assert(bound_args(ps, s, 2) is Ok);
    assert(bound_args(ps, s, 2)->Ok_0 =~= seq![ArgValue::Float(a0), ArgValue::Float(a1)]);
}

/// Law: a `SetMasterOutVolume` event built from a binding carries, in this order, the
/// values of its parameters `vol`, `fadervol`.
pub proof fn law_set_master_out_volume_arguments(ps: Seq<(Seq<char>, StoredValue)>, a0: u32, a1: u32)
    requires
        param_from(ps, "vol"@, 0) == Some(StoredValue::Float(a0)),
        param_from(ps, "fadervol"@, 0) == Some(StoredValue::Float(a1)),
    ensures
        bound_event(Some(EventType::SetMasterOutVolume), ps) == Ok::<(EventType, Seq<ArgValue>), BindingErrorValue>(
            (EventType::SetMasterOutVolume, seq![ArgValue::Float(a0), ArgValue::Float(a1)]),
        ),
{
    reveal_with_fuel(bound_args, 3);
    let s = output_schema(EventType::SetMasterOutVolume).unwrap();
    assert(bound_args(ps, s, 2) is Ok);
    assert(bound_args(ps, s, 2)->Ok_0 =~= seq![ArgValue::Float(a0), ArgValue::Float(a1)]);
}

/// Law: a `ToggleInputRecord` event built from a binding carries, in this order, the
/// values of its parameters `input`.
pub proof fn law_toggle_input_record_arguments(ps: Seq<(Seq<char>, StoredValue)>, a0: i32)
    requires
        param_from(ps, "input"@, 0) == Some(StoredValue::Int(a0)),
    ensures
        bound_event(Some(EventType::ToggleInputRecord), ps) == Ok::<(EventType, Seq<ArgValue>), BindingErrorValue>(
            (EventType::ToggleInputRecord, seq![ArgValue::Int(a0)]),
        ),
{
    reveal_with_fuel(bound_args, 2);
    let s = output_schema(EventType::ToggleInputRecord).unwrap();
    assert(bound_args(ps, s, 1) is Ok);
    assert(bound_args(ps, s, 1)->Ok_0 =~= seq![ArgValue::Int(a0)]);
}

/// Law: a `SetMidiEchoPort` event built from a binding carries, in this order, the
/// values of its parameters `echoport`.
pub proof fn law_set_midi_echo_port_arguments(ps: Seq<(Seq<char>, StoredValue)>, a0: i32)
    requires
        param_from(ps, "echoport"@, 0) == Some(StoredValue::Int(a0)),
    ensures
        bound_event(Some(EventType::SetMidiEchoPort), ps) == Ok::<(EventType, Seq<ArgValue>), BindingErrorValue>(
            (EventType::SetMidiEchoPort, seq![ArgValue::Int(a0)]),
        ),
{
    reveal_with_fuel(bound_args, 2);
    let s = output_schema(EventType::SetMidiEchoPort).unwrap();
    assert(bound_args(ps, s, 1) is Ok);
    assert(bound_args(ps, s, 1)->Ok_0 =~= seq![ArgValue::Int(a0)]);
}

/// Law: a `SetMidiEchoChannel` event built from a binding carries, in this order, the
/// values of its parameters `echochannel`.
pub proof fn law_set_midi_echo_channel_arguments(ps: Seq<(Seq<char>, StoredValue)>, a0: i32)
    requires
        param_from(ps, "echochannel"@, 0) == Some(StoredValue::Int(a0)),
    ensures
        bound_event(Some(EventType::SetMidiEchoChannel), ps) == Ok::<(EventType, Seq<ArgValue>), BindingErrorValue>(
            (EventType::SetMidiEchoChannel, seq![ArgValue::Int(a0)]),
        ),
{
    reveal_with_fuel(bound_args, 2);
    let s = output_schema(EventType::SetMidiEchoChannel).unwrap();
    assert(bound_args(ps, s, 1) is Ok);
    assert(bound_args(ps, s, 1)->Ok_0 =~= seq![ArgValue::Int(a0)]);
}

/// Law: a `AdjustMidiTranspose` event built from a binding carries, in this order, the
/// values of its parameters `adjust`.
pub proof fn law_adjust_midi_transpose_arguments(ps: Seq<(Seq<char>, StoredValue)>, a0: i32)
    requires
        param_from(ps, "adjust"@, 0) == Some(StoredValue::Int(a0)),
    ensures
        bound_event(Some(EventType::AdjustMidiTranspose), ps) == Ok::<(EventType, Seq<ArgValue>), BindingErrorValue>(
            (EventType::AdjustMidiTranspose, seq![ArgValue::Int(a0)]),
        ),
{
    reveal_with_fuel(bound_args, 2);
    let s = output_schema(EventType::AdjustMidiTranspose).unwrap();
    assert(bound_args(ps, s, 1) is Ok);
    assert(bound_args(ps, s, 1)->Ok_0 =~= seq![ArgValue::Int(a0)]);
}

/// Law: a `SetTriggerVolume` event built from a binding carries, in this order, the
/// values of its parameters `loopid`, `vol`.
pub proof fn law_set_trigger_volume_arguments(ps: Seq<(Seq<char>, StoredValue)>, a0: i32, a1: u32)
    requires
        param_from(ps, "loopid"@, 0) == Some(StoredValue::Int(a0)),
        param_from(ps, "vol"@, 0) == Some(StoredValue::Float(a1)),
    ensures
        bound_event(Some(EventType::SetTriggerVolume), ps) == Ok::<(EventType, Seq<ArgValue>), BindingErrorValue>(
            (EventType::SetTriggerVolume, seq![ArgValue::Int(a0), ArgValue::Float(a1)]),
        ),
{
    reveal_with_fuel(bound_args, 3);
    let s = output_schema(EventType::SetTriggerVolume).unwrap();
    assert(bound_args(ps, s, 2) is Ok);
    assert(bound_args(ps, s, 2)->Ok_0 =~= seq![ArgValue::Int(a0), ArgValue::Float(a1)]);
}

/// Law: a `SlideLoopAmp` event built from a binding carries, in this order, the
/// values of its parameters `loopid`, `slide`.
pub proof fn law_slide_loop_amp_arguments(ps: Seq<(Seq<char>, StoredValue)>, a0: i32, a1: u32)
    requires
        param_from(ps, "loopid"@, 0) == Some(StoredValue::Int(a0)),
        param_from(ps, "slide"@, 0) == Some(StoredValue::Float(a1)),
    ensures
        bound_event(Some(EventType::SlideLoopAmp), ps) == Ok::<(EventType, Seq<ArgValue>), BindingErrorValue>(
            (EventType::SlideLoopAmp, seq![ArgValue::Int(a0), ArgValue::Float(a1)]),
        ),
{
    reveal_with_fuel(bound_args, 3);
    let s = output_schema(EventType::SlideLoopAmp).unwrap();
    assert(bound_args(ps, s, 2) is Ok);
    assert(bound_args(ps, s, 2)->Ok_0 =~= seq![ArgValue::Int(a0), ArgValue::Float(a1)]);
}

/// Law: a `SetLoopAmp` event built from a binding carries, in this order, the
/// values of its parameters `loopid`, `amp`.
pub proof fn law_set_loop_amp_arguments(ps: Seq<(Seq<char>, StoredValue)>, a0: i32, a1: u32)
    requires
        param_from(ps, "loopid"@, 0) == Some(StoredValue::Int(a0)),
        param_from(ps, "amp"@, 0) == Some(StoredValue::Float(a1)),
    ensures
        bound_event(Some(EventType::SetLoopAmp), ps) == Ok::<(EventType, Seq<ArgValue>), BindingErrorValue>(
            (EventType::SetLoopAmp, seq![ArgValue::Int(a0), ArgValue::Float(a1)]),
        ),
{
    reveal_with_fuel(bound_args, 3);
    let s = output_schema(EventType::SetLoopAmp).unwrap();
    assert(bound_args(ps, s, 2) is Ok);
    assert(bound_args(ps, s, 2)->Ok_0 =~= seq![ArgValue::Int(a0), ArgValue::Float(a1)]);
}

/// Law: a `AdjustLoopAmp` event built from a binding carries, in this order, the
/// values of its parameters `loopid`, `ampfactor`.
pub proof fn law_adjust_loop_amp_arguments(ps: Seq<(Seq<char>, StoredValue)>, a0: i32, a1: u32)
    requires
        param_from(ps, "loopid"@, 0) == Some(StoredValue::Int(a0)),
        param_from(ps, "ampfactor"@, 0) == Some(StoredValue::Float(a1)),
    ensures
        bound_event(Some(EventType::AdjustLoopAmp), ps) == Ok::<(EventType, Seq<ArgValue>), BindingErrorValue>(
            (EventType::AdjustLoopAmp, seq![ArgValue::Int(a0), ArgValue::Float(a1)]),
        ),
{
    reveal_with_fuel(bound_args, 3);
    let s = output_schema(EventType::AdjustLoopAmp).unwrap();
    assert(bound_args(ps, s, 2) is Ok);
    assert(bound_args(ps, s, 2)->Ok_0 =~= seq![ArgValue::Int(a0), ArgValue::Float(a1)]);
}

/// Law: a `RenameLoop` event built from a binding carries, in this order, the
/// values of its parameters `loopid`, `in`.
pub proof fn law_rename_loop_arguments(ps: Seq<(Seq<char>, StoredValue)>, a0: i32, a1: i32)
    requires
        param_from(ps, "loopid"@, 0) == Some(StoredValue::Int(a0)),
        param_from(ps, "in"@, 0) == Some(StoredValue::Int(a1)),
    ensures
        bound_event(Some(EventType::RenameLoop), ps) == Ok::<(EventType, Seq<ArgValue>), BindingErrorValue>(
            (EventType::RenameLoop, seq![ArgValue::Int(a0), ArgValue::Bool(a1 != 0)]),
        ),
{
    reveal_with_fuel(bound_args, 3);
    let s = output_schema(EventType::RenameLoop).unwrap();
    assert(bound_args(ps, s, 2) is Ok);
    assert(bound_args(ps, s, 2)->Ok_0 =~= seq![ArgValue::Int(a0), ArgValue::Bool(a1 != 0)]);
}

/// Law: a `ToggleSelectLoop` event built from a binding carries, in this order, the
/// values of its parameters `setid`, `loopid`.
pub proof fn law_toggle_select_loop_arguments(ps: Seq<(Seq<char>, StoredValue)>, a0: i32, a1: i32)
    requires
        param_from(ps, "setid"@, 0) == Some(StoredValue::Int(a0)),
        param_from(ps, "loopid"@, 0) == Some(StoredValue::Int(a1)),
    ensures
        bound_event(Some(EventType::ToggleSelectLoop), ps) == Ok::<(EventType, Seq<ArgValue>), BindingErrorValue>(
            (EventType::ToggleSelectLoop, seq![ArgValue::Int(a0), ArgValue::Int(a1)]),
        ),
{
    reveal_with_fuel(bound_args, 3);
    let s = output_schema(EventType::ToggleSelectLoop).unwrap();
    assert(bound_args(ps, s, 2) is Ok);
    assert(bound_args(ps, s, 2)->Ok_0 =~= seq![ArgValue::Int(a0), ArgValue::Int(a1)]);
}

/// Law: a `SelectOnlyPlayingLoops` event built from a binding carries, in this order, the
/// values of its parameters `setid`, `playing`.
pub proof fn law_select_only_playing_loops_arguments(ps: Seq<(Seq<char>, StoredValue)>, a0: i32, a1: i32)
    requires
        param_from(ps, "setid"@, 0) == Some(StoredValue::Int(a0)),
        param_from(ps, "playing"@, 0) == Some(StoredValue::Int(a1)),
    ensures
        bound_event(Some(EventType::SelectOnlyPlayingLoops), ps) == Ok::<(EventType, Seq<ArgValue>), BindingErrorValue>(
            (EventType::SelectOnlyPlayingLoops, seq![ArgValue::Int(a0), ArgValue::Bool(a1 != 0)]),
        ),
{
    reveal_with_fuel(bound_args, 3);
    let s = output_schema(EventType::SelectOnlyPlayingLoops).unwrap();
    assert(bound_args(ps, s, 2) is Ok);
    assert(bound_args(ps, s, 2)->Ok_0 =~= seq![ArgValue::Int(a0), ArgValue::Bool(a1 != 0)]);
}

/// Law: a `SelectAllLoops` event built from a binding carries, in this order, the
/// values of its parameters `setid`, `select`.
pub proof fn law_select_all_loops_arguments(ps: Seq<(Seq<char>, StoredValue)>, a0: i32, a1: i32)
    requires
        param_from(ps, "setid"@, 0) == Some(StoredValue::Int(a0)),
        param_from(ps, "select"@, 0) == Some(StoredValue::Int(a1)),
    ensures
        bound_event(Some(EventType::SelectAllLoops), ps) == Ok::<(EventType, Seq<ArgValue>), BindingErrorValue>(
            (EventType::SelectAllLoops, seq![ArgValue::Int(a0), ArgValue::Bool(a1 != 0)]),
        ),
{
    reveal_with_fuel(bound_args, 3);
    let s = output_schema(EventType::SelectAllLoops).unwrap();
    assert(bound_args(ps, s, 2) is Ok);
    assert(bound_args(ps, s, 2)->Ok_0 =~= seq![ArgValue::Int(a0), ArgValue::Bool(a1 != 0)]);
}

/// Law: a `TriggerSelectedLoops` event built from a binding carries, in this order, the
/// values of its parameters `setid`, `vol`, `toggleloops`.
pub proof fn law_trigger_selected_loops_arguments(ps: Seq<(Seq<char>, StoredValue)>, a0: i32, a1: u32, a2: i32)
    requires
        param_from(ps, "setid"@, 0) == Some(StoredValue::Int(a0)),
        param_from(ps, "vol"@, 0) == Some(StoredValue::Float(a1)),
        param_from(ps, "toggleloops"@, 0) == Some(StoredValue::Int(a2)),
    ensures
        bound_event(Some(EventType::TriggerSelectedLoops), ps) == Ok::<(EventType, Seq<ArgValue>), BindingErrorValue>(
            (EventType::TriggerSelectedLoops, seq![ArgValue::Int(a0), ArgValue::Float(a1), ArgValue::Bool(a2 != 0)]),
        ),
{
    reveal_with_fuel(bound_args, 4);
    let s = output_schema(EventType::TriggerSelectedLoops).unwrap();
    assert(bound_args(ps, s, 3) is Ok);
    assert(bound_args(ps, s, 3)->Ok_0 =~= seq![ArgValue::Int(a0), ArgValue::Float(a1), ArgValue::Bool(a2 != 0)]);
}

/// Law: a `SetSelectedLoopsTriggerVolume` event built from a binding carries, in this order, the
/// values of its parameters `setid`, `vol`.
pub proof fn law_set_selected_loops_trigger_volume_arguments(ps: Seq<(Seq<char>, StoredValue)>, a0: i32, a1: u32)
    requires
        param_from(ps, "setid"@, 0) == Some(StoredValue::Int(a0)),
        param_from(ps, "vol"@, 0) == Some(StoredValue::Float(a1)),
    ensures
        bound_event(Some(EventType::SetSelectedLoopsTriggerVolume), ps) == Ok::<(EventType, Seq<ArgValue>), BindingErrorValue>(
            (EventType::SetSelectedLoopsTriggerVolume, seq![ArgValue::Int(a0), ArgValue::Float(a1)]),
        ),
{
    reveal_with_fuel(bound_args, 3);
    let s = output_schema(EventType::SetSelectedLoopsTriggerVolume).unwrap();
    assert(bound_args(ps, s, 2) is Ok);
    assert(bound_args(ps, s, 2)->Ok_0 =~= seq![ArgValue::Int(a0), ArgValue::Float(a1)]);
}

/// Law: a `AdjustSelectedLoopsAmp` event built from a binding carries, in this order, the
/// values of its parameters `setid`, `ampfactor`.
pub proof fn law_adjust_selected_loops_amp_arguments(ps: Seq<(Seq<char>, StoredValue)>, a0: i32, a1: u32)
    requires
        param_from(ps, "setid"@, 0) == Some(StoredValue::Int(a0)),
        param_from(ps, "ampfactor"@, 0) == Some(StoredValue::Float(a1)),
    ensures
        bound_event(Some(EventType::AdjustSelectedLoopsAmp), ps) == Ok::<(EventType, Seq<ArgValue>), BindingErrorValue>(
            (EventType::AdjustSelectedLoopsAmp, seq![ArgValue::Int(a0), ArgValue::Float(a1)]),
        ),
{
    reveal_with_fuel(bound_args, 3);
    let s = output_schema(EventType::AdjustSelectedLoopsAmp).unwrap();
    assert(bound_args(ps, s, 2) is Ok);
    assert(bound_args(ps, s, 2)->Ok_0 =~= seq![ArgValue::Int(a0), ArgValue::Float(a1)]);
}

/// Law: a `InvertSelection` event built from a binding carries, in this order, the
/// values of its parameters `setid`.
pub proof fn law_invert_selection_arguments(ps: Seq<(Seq<char>, StoredValue)>, a0: i32)
    requires
        param_from(ps, "setid"@, 0) == Some(StoredValue::Int(a0)),
    ensures
        bound_event(Some(EventType::InvertSelection), ps) == Ok::<(EventType, Seq<ArgValue>), BindingErrorValue>(
            (EventType::InvertSelection, seq![ArgValue::Int(a0)]),
        ),
{
    reveal_with_fuel(bound_args, 2);
    let s = output_schema(EventType::InvertSelection).unwrap();
    assert(bound_args(ps, s, 1) is Ok);
    assert(bound_args(ps, s, 1)->Ok_0 =~= seq![ArgValue::Int(a0)]);
}

/// Law: a `CreateSnapshot` event built from a binding carries, in this order, the
/// values of its parameters `snapid`.
pub proof fn law_create_snapshot_arguments(ps: Seq<(Seq<char>, StoredValue)>, a0: i32)
    requires
        param_from(ps, "snapid"@, 0) == Some(StoredValue::Int(a0)),
    ensures
        bound_event(Some(EventType::CreateSnapshot), ps) == Ok::<(EventType, Seq<ArgValue>), BindingErrorValue>(
            (EventType::CreateSnapshot, seq![ArgValue::Int(a0)]),
        ),
{
    reveal_with_fuel(bound_args, 2);
    let s = output_schema(EventType::CreateSnapshot).unwrap();
    assert(bound_args(ps, s, 1) is Ok);
    assert(bound_args(ps, s, 1)->Ok_0 =~= seq![ArgValue::Int(a0)]);
}

/// Law: a `SwapSnapshots` event built from a binding carries, in this order, the
/// values of its parameters `snapid1`, `snapid2`.
pub proof fn law_swap_snapshots_arguments(ps: Seq<(Seq<char>, StoredValue)>, a0: i32, a1: i32)
    requires
        param_from(ps, "snapid1"@, 0) == Some(StoredValue::Int(a0)),
        param_from(ps, "snapid2"@, 0) == Some(StoredValue::Int(a1)),
    ensures
        bound_event(Some(EventType::SwapSnapshots), ps) == Ok::<(EventType, Seq<ArgValue>), BindingErrorValue>(
            (EventType::SwapSnapshots, seq![ArgValue::Int(a0), ArgValue::Int(a1)]),
        ),
{
    reveal_with_fuel(bound_args, 3);
    let s = output_schema(EventType::SwapSnapshots).unwrap();
    assert(bound_args(ps, s, 2) is Ok);
    assert(bound_args(ps, s, 2)->Ok_0 =~= seq![ArgValue::Int(a0), ArgValue::Int(a1)]);
}

/// Law: a `RenameSnapshot` event built from a binding carries, in this order, the
/// values of its parameters `snapid`.
pub proof fn law_rename_snapshot_arguments(ps: Seq<(Seq<char>, StoredValue)>, a0: i32)
    requires
        param_from(ps, "snapid"@, 0) == Some(StoredValue::Int(a0)),
    ensures
        bound_event(Some(EventType::RenameSnapshot), ps) == Ok::<(EventType, Seq<ArgValue>), BindingErrorValue>(
            (EventType::RenameSnapshot, seq![ArgValue::Int(a0)]),
        ),
{
    reveal_with_fuel(bound_args, 2);
    let s = output_schema(EventType::RenameSnapshot).unwrap();
    assert(bound_args(ps, s, 1) is Ok);
    assert(bound_args(ps, s, 1)->Ok_0 =~= seq![ArgValue::Int(a0)]);
}

/// Law: a `TriggerSnapshot` event built from a binding carries, in this order, the
/// values of its parameters `snapid`.
pub proof fn law_trigger_snapshot_arguments(ps: Seq<(Seq<char>, StoredValue)>, a0: i32)
    requires
        param_from(ps, "snapid"@, 0) == Some(StoredValue::Int(a0)),
    ensures
        bound_event(Some(EventType::TriggerSnapshot), ps) == Ok::<(EventType, Seq<ArgValue>), BindingErrorValue>(
            (EventType::TriggerSnapshot, seq![ArgValue::Int(a0)]),
        ),
{
    reveal_with_fuel(bound_args, 2);
    let s = output_schema(EventType::TriggerSnapshot).unwrap();
    assert(bound_args(ps, s, 1) is Ok);
    assert(bound_args(ps, s, 1)->Ok_0 =~= seq![ArgValue::Int(a0)]);
}

/// Law: a `MoveLoop` event built from a binding carries, in this order, the
/// values of its parameters `oldloopid`, `newloopid`.
pub proof fn law_move_loop_arguments(ps: Seq<(Seq<char>, StoredValue)>, a0: i32, a1: i32)
    requires
        param_from(ps, "oldloopid"@, 0) == Some(StoredValue::Int(a0)),
        param_from(ps, "newloopid"@, 0) == Some(StoredValue::Int(a1)),
    ensures
        bound_event(Some(EventType::MoveLoop), ps) == Ok::<(EventType, Seq<ArgValue>), BindingErrorValue>(
            (EventType::MoveLoop, seq![ArgValue::Int(a0), ArgValue::Int(a1)]),
        ),
{
    reveal_with_fuel(bound_args, 3);
    let s = output_schema(EventType::MoveLoop).unwrap();
    assert(bound_args(ps, s, 2) is Ok);
    assert(bound_args(ps, s, 2)->Ok_0 =~= seq![ArgValue::Int(a0), ArgValue::Int(a1)]);
}

/// Law: a `EraseLoop` event built from a binding carries, in this order, the
/// values of its parameters `loopid`.
pub proof fn law_erase_loop_arguments(ps: Seq<(Seq<char>, StoredValue)>, a0: i32)
    requires
        param_from(ps, "loopid"@, 0) == Some(StoredValue::Int(a0)),
    ensures
        bound_event(Some(EventType::EraseLoop), ps) == Ok::<(EventType, Seq<ArgValue>), BindingErrorValue>(
            (EventType::EraseLoop, seq![ArgValue::Int(a0)]),
        ),
{
    reveal_with_fuel(bound_args, 2);
    let s = output_schema(EventType::EraseLoop).unwrap();
    assert(bound_args(ps, s, 1) is Ok);
    assert(bound_args(ps, s, 1)->Ok_0 =~= seq![ArgValue::Int(a0)]);
}

/// Law: a `EraseSelectedLoops` event built from a binding carries, in this order, the
/// values of its parameters `setid`.
pub proof fn law_erase_selected_loops_arguments(ps: Seq<(Seq<char>, StoredValue)>, a0: i32)
    requires
        param_from(ps, "setid"@, 0) == Some(StoredValue::Int(a0)),
    ensures
        bound_event(Some(EventType::EraseSelectedLoops), ps) == Ok::<(EventType, Seq<ArgValue>), BindingErrorValue>(
            (EventType::EraseSelectedLoops, seq![ArgValue::Int(a0)]),
        ),
{
    reveal_with_fuel(bound_args, 2);
    let s = output_schema(EventType::EraseSelectedLoops).unwrap();
    assert(bound_args(ps, s, 1) is Ok);
    assert(bound_args(ps, s, 1)->Ok_0 =~= seq![ArgValue::Int(a0)]);
}

/// Law: a `SetAutoLoopSaving` event built from a binding carries, in this order, the
/// values of its parameters `save`.
pub proof fn law_set_auto_loop_saving_arguments(ps: Seq<(Seq<char>, StoredValue)>, a0: i32)
    requires
        param_from(ps, "save"@, 0) == Some(StoredValue::Int(a0)),
    ensures
        bound_event(Some(EventType::SetAutoLoopSaving), ps) == Ok::<(EventType, Seq<ArgValue>), BindingErrorValue>(
            (EventType::SetAutoLoopSaving, seq![ArgValue::Bool(a0 != 0)]),
        ),
{
    reveal_with_fuel(bound_args, 2);
    let s = output_schema(EventType::SetAutoLoopSaving).unwrap();
    assert(bound_args(ps, s, 1) is Ok);
    assert(bound_args(ps, s, 1)->Ok_0 =~= seq![ArgValue::Bool(a0 != 0)]);
}

/// Law: a `SaveLoop` event built from a binding carries, in this order, the
/// values of its parameters `loopid`.
pub proof fn law_save_loop_arguments(ps: Seq<(Seq<char>, StoredValue)>, a0: i32)
    requires
        param_from(ps, "loopid"@, 0) == Some(StoredValue::Int(a0)),
    ensures
        bound_event(Some(EventType::SaveLoop), ps) == Ok::<(EventType, Seq<ArgValue>), BindingErrorValue>(
            (EventType::SaveLoop, seq![ArgValue::Int(a0)]),
        ),
{
    reveal_with_fuel(bound_args, 2);
    let s = output_schema(EventType::SaveLoop).unwrap();
    assert(bound_args(ps, s, 1) is Ok);
    assert(bound_args(ps, s, 1)->Ok_0 =~= seq![ArgValue::Int(a0)]);
}

/// Law: a `SetLoadLoopId` event built from a binding carries, in this order, the
/// values of its parameters `loopid`.
pub proof fn law_set_load_loop_id_arguments(ps: Seq<(Seq<char>, StoredValue)>, a0: i32)
    requires
        param_from(ps, "loopid"@, 0) == Some(StoredValue::Int(a0)),
    ensures
        bound_event(Some(EventType::SetLoadLoopId), ps) == Ok::<(EventType, Seq<ArgValue>), BindingErrorValue>(
            (EventType::SetLoadLoopId, seq![ArgValue::Int(a0)]),
        ),
{
    reveal_with_fuel(bound_args, 2);
    let s = output_schema(EventType::SetLoadLoopId).unwrap();
    assert(bound_args(ps, s, 1) is Ok);
    assert(bound_args(ps, s, 1)->Ok_0 =~= seq![ArgValue::Int(a0)]);
}

/// Law: a `SetDefaultLoopPlacement` event built from a binding carries, in this order, the
/// values of its parameters `looprange`.
pub proof fn law_set_default_loop_placement_arguments(ps: Seq<(Seq<char>, StoredValue)>, a0: Range)
    requires
        param_from(ps, "looprange"@, 0) == Some(StoredValue::Range(a0)),
    ensures
        bound_event(Some(EventType::SetDefaultLoopPlacement), ps) == Ok::<(EventType, Seq<ArgValue>), BindingErrorValue>(
            (EventType::SetDefaultLoopPlacement, seq![ArgValue::Range(a0)]),
        ),
{
    reveal_with_fuel(bound_args, 2);
    let s = output_schema(EventType::SetDefaultLoopPlacement).unwrap();
    assert(bound_args(ps, s, 1) is Ok);
    assert(bound_args(ps, s, 1)->Ok_0 =~= seq![ArgValue::Range(a0)]);
}

/// Law: a `SelectPulse` event built from a binding carries, in this order, the
/// values of its parameters `pulse`.
pub proof fn law_select_pulse_arguments(ps: Seq<(Seq<char>, StoredValue)>, a0: i32)
    requires
        param_from(ps, "pulse"@, 0) == Some(StoredValue::Int(a0)),
    ensures
        bound_event(Some(EventType::SelectPulse), ps) == Ok::<(EventType, Seq<ArgValue>), BindingErrorValue>(
            (EventType::SelectPulse, seq![ArgValue::Int(a0)]),
        ),
{
    reveal_with_fuel(bound_args, 2);
    let s = output_schema(EventType::SelectPulse).unwrap();
    assert(bound_args(ps, s, 1) is Ok);
    assert(bound_args(ps, s, 1)->Ok_0 =~= seq![ArgValue::Int(a0)]);
}

/// Law: a `DeletePulse` event built from a binding carries, in this order, the
/// values of its parameters `pulse`.
pub proof fn law_delete_pulse_arguments(ps: Seq<(Seq<char>, StoredValue)>, a0: i32)
    requires
        param_from(ps, "pulse"@, 0) == Some(StoredValue::Int(a0)),
    ensures
        bound_event(Some(EventType::DeletePulse), ps) == Ok::<(EventType, Seq<ArgValue>), BindingErrorValue>(
            (EventType::DeletePulse, seq![ArgValue::Int(a0)]),
        ),
{
    reveal_with_fuel(bound_args, 2);
    let s = output_schema(EventType::DeletePulse).unwrap();
    assert(bound_args(ps, s, 1) is Ok);
    assert(bound_args(ps, s, 1)->Ok_0 =~= seq![ArgValue::Int(a0)]);
}

/// Law: a `TapPulse` event built from a binding carries, in this order, the
/// values of its parameters `pulse`, `newlen`.
pub proof fn law_tap_pulse_arguments(ps: Seq<(Seq<char>, StoredValue)>, a0: i32, a1: i32)
    requires
        param_from(ps, "pulse"@, 0) == Some(StoredValue::Int(a0)),
        param_from(ps, "newlen"@, 0) == Some(StoredValue::Int(a1)),
    ensures
        bound_event(Some(EventType::TapPulse), ps) == Ok::<(EventType, Seq<ArgValue>), BindingErrorValue>(
            (EventType::TapPulse, seq![ArgValue::Int(a0), ArgValue::Bool(a1 != 0)]),
        ),
{
    reveal_with_fuel(bound_args, 3);
    let s = output_schema(EventType::TapPulse).unwrap();
    assert(bound_args(ps, s, 2) is Ok);
    assert(bound_args(ps, s, 2)->Ok_0 =~= seq![ArgValue::Int(a0), ArgValue::Bool(a1 != 0)]);
}

/// Law: a `SwitchMetronome` event built from a binding carries, in this order, the
/// values of its parameters `pulse`, `metronome`.
pub proof fn law_switch_metronome_arguments(ps: Seq<(Seq<char>, StoredValue)>, a0: i32, a1: i32)
    requires
        param_from(ps, "pulse"@, 0) == Some(StoredValue::Int(a0)),
        param_from(ps, "metronome"@, 0) == Some(StoredValue::Int(a1)),
    ensures
        bound_event(Some(EventType::SwitchMetronome), ps) == Ok::<(EventType, Seq<ArgValue>), BindingErrorValue>(
            (EventType::SwitchMetronome, seq![ArgValue::Int(a0), ArgValue::Bool(a1 != 0)]),
        ),
{
    reveal_with_fuel(bound_args, 3);
    let s = output_schema(EventType::SwitchMetronome).unwrap();
    assert(bound_args(ps, s, 2) is Ok);
    assert(bound_args(ps, s, 2)->Ok_0 =~= seq![ArgValue::Int(a0), ArgValue::Bool(a1 != 0)]);
}

/// Law: a `SetSyncType` event built from a binding carries, in this order, the
/// values of its parameters `stype`.
pub proof fn law_set_sync_type_arguments(ps: Seq<(Seq<char>, StoredValue)>, a0: i32)
    requires
        param_from(ps, "stype"@, 0) == Some(StoredValue::Int(a0)),
    ensures
        bound_event(Some(EventType::SetSyncType), ps) == Ok::<(EventType, Seq<ArgValue>), BindingErrorValue>(
            (EventType::SetSyncType, seq![ArgValue::Bool(a0 != 0)]),
        ),
{
    reveal_with_fuel(bound_args, 2);
    let s = output_schema(EventType::SetSyncType).unwrap();
    assert(bound_args(ps, s, 1) is Ok);
    assert(bound_args(ps, s, 1)->Ok_0 =~= seq![ArgValue::Bool(a0 != 0)]);
}

/// Law: a `SetSyncSpeed` event built from a binding carries, in this order, the
/// values of its parameters `sspd`.
pub proof fn law_set_sync_speed_arguments(ps: Seq<(Seq<char>, StoredValue)>, a0: i32)
    requires
        param_from(ps, "sspd"@, 0) == Some(StoredValue::Int(a0)),
    ensures
        bound_event(Some(EventType::SetSyncSpeed), ps) == Ok::<(EventType, Seq<ArgValue>), BindingErrorValue>(
            (EventType::SetSyncSpeed, seq![ArgValue::Int(a0)]),
        ),
{
    reveal_with_fuel(bound_args, 2);
    let s = output_schema(EventType::SetSyncSpeed).unwrap();
    assert(bound_args(ps, s, 1) is Ok);
    assert(bound_args(ps, s, 1)->Ok_0 =~= seq![ArgValue::Int(a0)]);
}

/// Law: a `SetMidiSync` event built from a binding carries, in this order, the
/// values of its parameters `midisync`.
pub proof fn law_set_midi_sync_arguments(ps: Seq<(Seq<char>, StoredValue)>, a0: i32)
    requires
        param_from(ps, "midisync"@, 0) == Some(StoredValue::Int(a0)),
    ensures
        bound_event(Some(EventType::SetMidiSync), ps) == Ok::<(EventType, Seq<ArgValue>), BindingErrorValue>(
            (EventType::SetMidiSync, seq![ArgValue::Int(a0)]),
        ),
{
    reveal_with_fuel(bound_args, 2);
    let s = output_schema(EventType::SetMidiSync).unwrap();
    assert(bound_args(ps, s, 1) is Ok);
    assert(bound_args(ps, s, 1)->Ok_0 =~= seq![ArgValue::Int(a0)]);
}

/// Law: a `SetVariable` event built from a binding carries, in this order, the
/// values of its parameters `var`, `value`, `maxjumpcheck`, `maxjump`.
pub proof fn law_set_variable_arguments(ps: Seq<(Seq<char>, StoredValue)>, a0: Seq<char>, a1: VariableValue, a2: i32, a3: VariableValue)
    requires
        param_from(ps, "var"@, 0) == Some(StoredValue::VariableRef(Some(a0))),
        param_from(ps, "value"@, 0) == Some(StoredValue::Variable(a1)),
        param_from(ps, "maxjumpcheck"@, 0) == Some(StoredValue::Int(a2)),
        param_from(ps, "maxjump"@, 0) == Some(StoredValue::Variable(a3)),
    ensures
        bound_event(Some(EventType::SetVariable), ps) == Ok::<(EventType, Seq<ArgValue>), BindingErrorValue>(
            (EventType::SetVariable, seq![ArgValue::VariableRef(a0), ArgValue::Variable(a1), ArgValue::Bool(a2 != 0), ArgValue::Variable(a3)]),
        ),
{
    reveal_with_fuel(bound_args, 5);
    let s = output_schema(EventType::SetVariable).unwrap();
    assert(bound_args(ps, s, 4) is Ok);
    assert(bound_args(ps, s, 4)->Ok_0 =~= seq![ArgValue::VariableRef(a0), ArgValue::Variable(a1), ArgValue::Bool(a2 != 0), ArgValue::Variable(a3)]);
}

/// Law: a `ToggleVariable` event built from a binding carries, in this order, the
/// values of its parameters `var`, `maxvalue`, `minvalue`.
pub proof fn law_toggle_variable_arguments(ps: Seq<(Seq<char>, StoredValue)>, a0: Seq<char>, a1: i32, a2: i32)
    requires
        param_from(ps, "var"@, 0) == Some(StoredValue::VariableRef(Some(a0))),
        param_from(ps, "maxvalue"@, 0) == Some(StoredValue::Int(a1)),
        param_from(ps, "minvalue"@, 0) == Some(StoredValue::Int(a2)),
    ensures
        bound_event(Some(EventType::ToggleVariable), ps) == Ok::<(EventType, Seq<ArgValue>), BindingErrorValue>(
            (EventType::ToggleVariable, seq![ArgValue::VariableRef(a0), ArgValue::Int(a1), ArgValue::Int(a2)]),
        ),
{
    reveal_with_fuel(bound_args, 4);
    let s = output_schema(EventType::ToggleVariable).unwrap();
    assert(bound_args(ps, s, 3) is Ok);
    assert(bound_args(ps, s, 3)->Ok_0 =~= seq![ArgValue::VariableRef(a0), ArgValue::Int(a1), ArgValue::Int(a2)]);
}

/// Law: a `SplitVariableMSBLSB` event built from a binding carries, in this order, the
/// values of its parameters `var`, `msb`, `lsb`.
pub proof fn law_split_variable_msblsb_arguments(ps: Seq<(Seq<char>, StoredValue)>, a0: VariableValue, a1: Seq<char>, a2: Seq<char>)
    requires
        param_from(ps, "var"@, 0) == Some(StoredValue::Variable(a0)),
        param_from(ps, "msb"@, 0) == Some(StoredValue::VariableRef(Some(a1))),
        param_from(ps, "lsb"@, 0) == Some(StoredValue::VariableRef(Some(a2))),
    ensures
        bound_event(Some(EventType::SplitVariableMSBLSB), ps) == Ok::<(EventType, Seq<ArgValue>), BindingErrorValue>(
            (EventType::SplitVariableMSBLSB, seq![ArgValue::Variable(a0), ArgValue::VariableRef(a1), ArgValue::VariableRef(a2)]),
        ),
{
    reveal_with_fuel(bound_args, 4);
    let s = output_schema(EventType::SplitVariableMSBLSB).unwrap();
    assert(bound_args(ps, s, 3) is Ok);
    assert(bound_args(ps, s, 3)->Ok_0 =~= seq![ArgValue::Variable(a0), ArgValue::VariableRef(a1), ArgValue::VariableRef(a2)]);
}
} // verus!
