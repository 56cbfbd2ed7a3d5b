//! Event types of the configuration language: their names, whether they
//! are delivered on the slow path, and the parameters each one carries.

use vstd::prelude::*;
use crate::datatypes::{CoreDataType, Range, UserVariable};
use crate::text::str_eq;

verus! {

pub const FWEELIN_OUTNAME_LEN: usize = 1024;

/// The name of the parameter that selects an interface.
pub const INTERFACEID: &'static str = "interfaceid";

pub const MAX_MIDI_CHANNELS: usize = 16;

pub const MAX_MIDI_CONTROLLERS: usize = 127;

pub const MAX_MIDI_NOTES: usize = 127;

pub const MAX_MIDI_PORTS: usize = 4;

/// A named parameter of an event type.
#[derive(Debug, Clone, Copy, PartialEq, Eq)]
pub struct EventParameter {
    pub name: &'static str,
    pub dtype: CoreDataType,
    pub max_index: i32,
}

/// Plain value of a parameter: name, type, largest index (-1 for none).
pub type ParamValue = (Seq<char>, CoreDataType, i32);

impl View for EventParameter {
    type V = ParamValue;

    open spec fn view(&self) -> ParamValue {
        (self.name@, self.dtype, self.max_index)
    }
}

/// The plain values of a list of parameters.
pub open spec fn params_view(ps: Seq<EventParameter>) -> Seq<ParamValue> {
    ps.map_values(|p: EventParameter| p@)
}

impl EventParameter {
    /// A parameter without an index limit.
    pub fn new(name: &'static str, dtype: CoreDataType) -> (p: EventParameter)
        ensures
            p@ == (name@, dtype, -1i32),
    {
        EventParameter { name, dtype, max_index: -1 }
    }

    /// A parameter whose index goes up to `max_index`.
    pub fn with_max_index(name: &'static str, dtype: CoreDataType, max_index: i32) -> (p: EventParameter)
        ensures
            p@ == (name@, dtype, max_index),
    {
        EventParameter { name, dtype, max_index }
    }
}

/// The event types.
#[derive(Debug, Clone, Copy, PartialEq, Eq, Structural, Hash)]
pub enum EventType {
    NoEvent,
    InputKey,
    InputJoystickButton,
    InputMIDIKey,
    InputMIDIController,
    InputMIDIProgramChange,
    InputMIDIChannelPressure,
    InputMIDIPitchBend,
    InputMIDIPolyphonicPressure,
    InputMIDISystemExclusive,
    InputMIDITimeCodeQuarterFrame,
    InputMIDISongPosition,
    InputMIDISongSelect,
    InputMIDITuneRequest,
    InputMIDIActiveSensing,
    InputMIDIReset,
    StartSession,
    StartInterface,
    GoSub,
    LoopClicked,
    BrowserItemBrowsed,
    LastBindable,
    InputMIDIClock,
    InputMIDIStartStop,
    InputMouseButton,
    InputMouseMotion,
    ALSAMixerControlSet,
    EndRecord,
    LoopList,
    SceneMarker,
    PulseSync,
    TriggerSet,
    AddProcessor,
    DelProcessor,
    CleanupProcessor,
    SetVariable,
    ToggleVariable,
    SplitVariableMSBLSB,
    ParamSetGetAbsoluteParamIdx,
    ParamSetGetParam,
    ParamSetSetParam,
    LogFaderVolToLinear,
    VideoShowParamSetBank,
    VideoShowParamSetPage,
    VideoShowSnapshotPage,
    VideoShowLoop,
    VideoShowLayout,
    VideoSwitchInterface,
    VideoShowDisplay,
    VideoShowHelp,
    VideoFullScreen,
    ShowDebugInfo,
    ExitSession,
    SlideMasterInVolume,
    SlideMasterOutVolume,
    SlideInVolume,
    SetMasterInVolume,
    SetMasterOutVolume,
    SetInVolume,
    ToggleInputRecord,
    SetMidiEchoPort,
    SetMidiEchoChannel,
    AdjustMidiTranspose,
    FluidSynthEnable,
    SetMidiTuning,
    DeletePulse,
    SelectPulse,
    TapPulse,
    SwitchMetronome,
    SetSyncType,
    SetSyncSpeed,
    SetMidiSync,
    ToggleSelectLoop,
    SelectOnlyPlayingLoops,
    SelectAllLoops,
    TriggerSelectedLoops,
    SetSelectedLoopsTriggerVolume,
    AdjustSelectedLoopsAmp,
    InvertSelection,
    CreateSnapshot,
    RenameSnapshot,
    TriggerSnapshot,
    SwapSnapshots,
    SetTriggerVolume,
    SlideLoopAmp,
    SetLoopAmp,
    AdjustLoopAmp,
    TriggerLoop,
    MoveLoop,
    RenameLoop,
    EraseLoop,
    EraseAllLoops,
    EraseSelectedLoops,
    SlideLoopAmpStopAll,
    ToggleDiskOutput,
    SetAutoLoopSaving,
    SaveLoop,
    SaveNewScene,
    SaveCurrentScene,
    SetLoadLoopId,
    SetDefaultLoopPlacement,
    BrowserMoveToItem,
    BrowserMoveToItemAbsolute,
    BrowserSelectItem,
    BrowserRenameItem,
    PatchBrowserMoveToBank,
    PatchBrowserMoveToBankByIndex,
    TransmitPlayingLoopsToDAW,
    Last,
}

/// The name of an event type in configuration files (empty for the
/// types that have none).
pub open spec fn event_name(t: EventType) -> Seq<char> {
    match t {
        EventType::InputKey => seq!['k', 'e', 'y'],
        EventType::InputJoystickButton => seq!['j', 'o', 'y', 'b', 'u', 't', 't', 'o', 'n'],
        EventType::InputMouseButton => seq!['m', 'o', 'u', 's', 'e', 'b', 'u', 't', 't', 'o', 'n'],
        EventType::InputMouseMotion => seq!['m', 'o', 'u', 's', 'e', 'm', 'o', 't', 'i', 'o', 'n'],
        EventType::InputMIDIKey => seq!['m', 'i', 'd', 'i', 'k', 'e', 'y'],
        EventType::InputMIDIController => seq!['m', 'i', 'd', 'i', 'c', 'o', 'n', 't', 'r', 'o', 'l', 'l', 'e', 'r'],
        EventType::InputMIDIProgramChange => seq!['m', 'i', 'd', 'i', 'p', 'r', 'o', 'g', 'r', 'a', 'm', 'c', 'h', 'a', 'n', 'g', 'e'],
        EventType::InputMIDIChannelPressure => seq!['m', 'i', 'd', 'i', 'c', 'h', 'a', 'n', 'n', 'e', 'l', 'p', 'r', 'e', 's', 's', 'u', 'r', 'e'],
        EventType::InputMIDIPitchBend => seq!['m', 'i', 'd', 'i', 'p', 'i', 't', 'c', 'h', 'b', 'e', 'n', 'd'],
        EventType::InputMIDIPolyphonicPressure => seq!['m', 'i', 'd', 'i', 'p', 'o', 'l', 'y', 'p', 'h', 'o', 'n', 'i', 'c', 'p', 'r', 'e', 's', 's', 'u', 'r', 'e'],
        EventType::InputMIDISystemExclusive => seq!['m', 'i', 'd', 'i', 's', 'y', 's', 'e', 'x'],
        EventType::InputMIDITimeCodeQuarterFrame => seq!['m', 'i', 'd', 'i', 'm', 't', 'c', 'q', 'u', 'a', 'r', 't', 'e', 'r', 'f', 'r', 'a', 'm', 'e'],
        EventType::InputMIDISongPosition => seq!['m', 'i', 'd', 'i', 's', 'o', 'n', 'g', 'p', 'o', 's', 'i', 't', 'i', 'o', 'n'],
        EventType::InputMIDISongSelect => seq!['m', 'i', 'd', 'i', 's', 'o', 'n', 'g', 's', 'e', 'l', 'e', 'c', 't'],
        EventType::InputMIDITuneRequest => seq!['m', 'i', 'd', 'i', 't', 'u', 'n', 'e', 'r', 'e', 'q', 'u', 'e', 's', 't'],
        EventType::InputMIDIActiveSensing => seq!['m', 'i', 'd', 'i', 'a', 'c', 't', 'i', 'v', 'e', 's', 'e', 'n', 's', 'i', 'n', 'g'],
        EventType::InputMIDIReset => seq!['m', 'i', 'd', 'i', 'r', 'e', 's', 'e', 't'],
        EventType::InputMIDIClock => seq!['m', 'i', 'd', 'i', 'c', 'l', 'o', 'c', 'k'],
        EventType::InputMIDIStartStop => seq!['m', 'i', 'd', 'i', 's', 't', 'a', 'r', 't', 's', 't', 'o', 'p'],
        EventType::EndRecord => seq!['e', 'n', 'd', '-', 'r', 'e', 'c', 'o', 'r', 'd'],
        EventType::LoopList => seq!['l', 'o', 'o', 'p', '-', 'l', 'i', 's', 't'],
        EventType::SceneMarker => seq!['s', 'c', 'e', 'n', 'e', '-', 'm', 'a', 'r', 'k', 'e', 'r'],
        EventType::TriggerSet => seq!['t', 'r', 'i', 'g', 'g', 'e', 'r', '-', 's', 'e', 't'],
        EventType::ALSAMixerControlSet => seq!['a', 'l', 's', 'a', '-', 'm', 'i', 'x', 'e', 'r', '-', 'c', 'o', 'n', 't', 'r', 'o', 'l', '-', 's', 'e', 't'],
        EventType::AddProcessor => seq!['a', 'd', 'd', '-', 'p', 'r', 'o', 'c', 'e', 's', 's', 'o', 'r'],
        EventType::DelProcessor => seq!['d', 'e', 'l', '-', 'p', 'r', 'o', 'c', 'e', 's', 's', 'o', 'r'],
        EventType::CleanupProcessor => seq!['c', 'l', 'e', 'a', 'n', 'u', 'p', '-', 'p', 'r', 'o', 'c', 'e', 's', 's', 'o', 'r'],
        EventType::LoopClicked => seq!['l', 'o', 'o', 'p', '-', 'c', 'l', 'i', 'c', 'k', 'e', 'd'],
        EventType::GoSub => seq!['g', 'o', '-', 's', 'u', 'b'],
        EventType::StartSession => seq!['s', 't', 'a', 'r', 't', '-', 'f', 'r', 'e', 'e', 'w', 'h', 'e', 'e', 'l', 'i', 'n', 'g'],
        EventType::StartInterface => seq!['s', 't', 'a', 'r', 't', '-', 'i', 'n', 't', 'e', 'r', 'f', 'a', 'c', 'e'],
        EventType::ExitSession => seq!['e', 'x', 'i', 't', '-', 'f', 'r', 'e', 'e', 'w', 'h', 'e', 'e', 'l', 'i', 'n', 'g'],
        EventType::SlideMasterInVolume => seq!['s', 'l', 'i', 'd', 'e', '-', 'm', 'a', 's', 't', 'e', 'r', '-', 'i', 'n', '-', 'v', 'o', 'l', 'u', 'm', 'e'],
        EventType::SlideMasterOutVolume => seq!['s', 'l', 'i', 'd', 'e', '-', 'm', 'a', 's', 't', 'e', 'r', '-', 'o', 'u', 't', '-', 'v', 'o', 'l', 'u', 'm', 'e'],
        EventType::SlideInVolume => seq!['s', 'l', 'i', 'd', 'e', '-', 'i', 'n', '-', 'v', 'o', 'l', 'u', 'm', 'e'],
        EventType::SetMasterInVolume => seq!['s', 'e', 't', '-', 'm', 'a', 's', 't', 'e', 'r', '-', 'i', 'n', '-', 'v', 'o', 'l', 'u', 'm', 'e'],
        EventType::SetMasterOutVolume => seq!['s', 'e', 't', '-', 'm', 'a', 's', 't', 'e', 'r', '-', 'o', 'u', 't', '-', 'v', 'o', 'l', 'u', 'm', 'e'],
        EventType::SetInVolume => seq!['s', 'e', 't', '-', 'i', 'n', '-', 'v', 'o', 'l', 'u', 'm', 'e'],
        EventType::ToggleInputRecord => seq!['t', 'o', 'g', 'g', 'l', 'e', '-', 'i', 'n', 'p', 'u', 't', '-', 'r', 'e', 'c', 'o', 'r', 'd'],
        EventType::SetMidiEchoPort => seq!['s', 'e', 't', '-', 'm', 'i', 'd', 'i', '-', 'e', 'c', 'h', 'o', '-', 'p', 'o', 'r', 't'],
        EventType::SetMidiEchoChannel => seq!['s', 'e', 't', '-', 'm', 'i', 'd', 'i', '-', 'e', 'c', 'h', 'o', '-', 'c', 'h', 'a', 'n', 'n', 'e', 'l'],
        EventType::AdjustMidiTranspose => seq!['a', 'd', 'j', 'u', 's', 't', '-', 'm', 'i', 'd', 'i', '-', 't', 'r', 'a', 'n', 's', 'p', 'o', 's', 'e'],
        EventType::FluidSynthEnable => seq!['f', 'l', 'u', 'i', 'd', 's', 'y', 'n', 't', 'h', '-', 'e', 'n', 'a', 'b', 'l', 'e'],
        EventType::SetMidiTuning => seq!['s', 'e', 't', '-', 'm', 'i', 'd', 'i', '-', 't', 'u', 'n', 'i', 'n', 'g'],
        EventType::SetTriggerVolume => seq!['s', 'e', 't', '-', 't', 'r', 'i', 'g', 'g', 'e', 'r', '-', 'v', 'o', 'l', 'u', 'm', 'e'],
        EventType::SlideLoopAmp => seq!['s', 'l', 'i', 'd', 'e', '-', 'l', 'o', 'o', 'p', '-', 'a', 'm', 'p', 'l', 'i', 'f', 'i', 'e', 'r'],
        EventType::SetLoopAmp => seq!['s', 'e', 't', '-', 'l', 'o', 'o', 'p', '-', 'a', 'm', 'p', 'l', 'i', 'f', 'i', 'e', 'r'],
        EventType::AdjustLoopAmp => seq!['a', 'd', 'j', 'u', 's', 't', '-', 'l', 'o', 'o', 'p', '-', 'a', 'm', 'p', 'l', 'i', 'f', 'i', 'e', 'r'],
        EventType::TriggerLoop => seq!['t', 'r', 'i', 'g', 'g', 'e', 'r', '-', 'l', 'o', 'o', 'p'],
        EventType::MoveLoop => seq!['m', 'o', 'v', 'e', '-', 'l', 'o', 'o', 'p'],
        EventType::RenameLoop => seq!['r', 'e', 'n', 'a', 'm', 'e', '-', 'l', 'o', 'o', 'p'],
        EventType::EraseLoop => seq!['e', 'r', 'a', 's', 'e', '-', 'l', 'o', 'o', 'p'],
        EventType::EraseAllLoops => seq!['e', 'r', 'a', 's', 'e', '-', 'a', 'l', 'l', '-', 'l', 'o', 'o', 'p', 's'],
        EventType::EraseSelectedLoops => seq!['e', 'r', 'a', 's', 'e', '-', 's', 'e', 'l', 'e', 'c', 't', 'e', 'd', '-', 'l', 'o', 'o', 'p', 's'],
        EventType::SlideLoopAmpStopAll => seq!['s', 'l', 'i', 'd', 'e', '-', 'l', 'o', 'o', 'p', '-', 'a', 'm', 'p', 'l', 'i', 'f', 'i', 'e', 'r', '-', 's', 't', 'o', 'p', '-', 'a', 'l', 'l'],
        EventType::DeletePulse => seq!['d', 'e', 'l', 'e', 't', 'e', '-', 'p', 'u', 'l', 's', 'e'],
        EventType::SelectPulse => seq!['s', 'e', 'l', 'e', 'c', 't', '-', 'p', 'u', 'l', 's', 'e'],
        EventType::TapPulse => seq!['t', 'a', 'p', '-', 'p', 'u', 'l', 's', 'e'],
        EventType::SwitchMetronome => seq!['s', 'w', 'i', 't', 'c', 'h', '-', 'm', 'e', 't', 'r', 'o', 'n', 'o', 'm', 'e'],
        EventType::SetSyncType => seq!['s', 'e', 't', '-', 's', 'y', 'n', 'c', '-', 't', 'y', 'p', 'e'],
        EventType::SetSyncSpeed => seq!['s', 'e', 't', '-', 's', 'y', 'n', 'c', '-', 's', 'p', 'e', 'e', 'd'],
        EventType::SetMidiSync => seq!['s', 'e', 't', '-', 'm', 'i', 'd', 'i', '-', 's', 'y', 'n', 'c'],
        EventType::ToggleSelectLoop => seq!['t', 'o', 'g', 'g', 'l', 'e', '-', 's', 'e', 'l', 'e', 'c', 't', '-', 'l', 'o', 'o', 'p'],
        EventType::SelectOnlyPlayingLoops => seq!['s', 'e', 'l', 'e', 'c', 't', '-', 'o', 'n', 'l', 'y', '-', 'p', 'l', 'a', 'y', 'i', 'n', 'g', '-', 'l', 'o', 'o', 'p', 's'],
        EventType::SelectAllLoops => seq!['s', 'e', 'l', 'e', 'c', 't', '-', 'a', 'l', 'l', '-', 'l', 'o', 'o', 'p', 's'],
        EventType::TriggerSelectedLoops => seq!['t', 'r', 'i', 'g', 'g', 'e', 'r', '-', 's', 'e', 'l', 'e', 'c', 't', 'e', 'd', '-', 'l', 'o', 'o', 'p', 's'],
        EventType::SetSelectedLoopsTriggerVolume => seq!['s', 'e', 't', '-', 's', 'e', 'l', 'e', 'c', 't', 'e', 'd', '-', 'l', 'o', 'o', 'p', 's', '-', 't', 'r', 'i', 'g', 'g', 'e', 'r', '-', 'v', 'o', 'l', 'u', 'm', 'e'],
        EventType::AdjustSelectedLoopsAmp => seq!['a', 'd', 'j', 'u', 's', 't', '-', 's', 'e', 'l', 'e', 'c', 't', 'e', 'd', '-', 'l', 'o', 'o', 'p', 's', '-', 'a', 'm', 'p'],
        EventType::InvertSelection => seq!['i', 'n', 'v', 'e', 'r', 't', '-', 's', 'e', 'l', 'e', 'c', 't', 'i', 'o', 'n'],
        EventType::CreateSnapshot => seq!['c', 'r', 'e', 'a', 't', 'e', '-', 's', 'n', 'a', 'p', 's', 'h', 'o', 't'],
        EventType::RenameSnapshot => seq!['r', 'e', 'n', 'a', 'm', 'e', '-', 's', 'n', 'a', 'p', 's', 'h', 'o', 't'],
        EventType::TriggerSnapshot => seq!['t', 'r', 'i', 'g', 'g', 'e', 'r', '-', 's', 'n', 'a', 'p', 's', 'h', 'o', 't'],
        EventType::SwapSnapshots => seq!['s', 'w', 'a', 'p', '-', 's', 'n', 'a', 'p', 's', 'h', 'o', 't', 's'],
        EventType::BrowserMoveToItem => seq!['b', 'r', 'o', 'w', 's', 'e', 'r', '-', 'm', 'o', 'v', 'e', '-', 't', 'o', '-', 'i', 't', 'e', 'm'],
        EventType::BrowserMoveToItemAbsolute => seq!['b', 'r', 'o', 'w', 's', 'e', 'r', '-', 'm', 'o', 'v', 'e', '-', 't', 'o', '-', 'i', 't', 'e', 'm', '-', 'a', 'b', 's', 'o', 'l', 'u', 't', 'e'],
        EventType::BrowserSelectItem => seq!['b', 'r', 'o', 'w', 's', 'e', 'r', '-', 's', 'e', 'l', 'e', 'c', 't', '-', 'i', 't', 'e', 'm'],
        EventType::BrowserRenameItem => seq!['b', 'r', 'o', 'w', 's', 'e', 'r', '-', 'r', 'e', 'n', 'a', 'm', 'e', '-', 'i', 't', 'e', 'm'],
        EventType::BrowserItemBrowsed => seq!['b', 'r', 'o', 'w', 's', 'e', 'r', '-', 'i', 't', 'e', 'm', '-', 'b', 'r', 'o', 'w', 's', 'e', 'd'],
        EventType::PatchBrowserMoveToBank => seq!['p', 'a', 't', 'c', 'h', 'b', 'r', 'o', 'w', 's', 'e', 'r', '-', 'm', 'o', 'v', 'e', '-', 't', 'o', '-', 'b', 'a', 'n', 'k'],
        EventType::PatchBrowserMoveToBankByIndex => seq!['p', 'a', 't', 'c', 'h', 'b', 'r', 'o', 'w', 's', 'e', 'r', '-', 'm', 'o', 'v', 'e', '-', 't', 'o', '-', 'b', 'a', 'n', 'k', '-', 'b', 'y', '-', 'i', 'n', 'd', 'e', 'x'],
        EventType::TransmitPlayingLoopsToDAW => seq!['t', 'r', 'a', 'n', 's', 'm', 'i', 't', '-', 'p', 'l', 'a', 'y', 'i', 'n', 'g', '-', 'l', 'o', 'o', 'p', 's', '-', 't', 'o', '-', 'd', 'a', 'w'],
        EventType::SetVariable => seq!['s', 'e', 't', '-', 'v', 'a', 'r', 'i', 'a', 'b', 'l', 'e'],
        EventType::ToggleVariable => seq!['t', 'o', 'g', 'g', 'l', 'e', '-', 'v', 'a', 'r', 'i', 'a', 'b', 'l', 'e'],
        EventType::SplitVariableMSBLSB => seq!['s', 'p', 'l', 'i', 't', '-', 'v', 'a', 'r', 'i', 'a', 'b', 'l', 'e', '-', 'm', 's', 'b', '-', 'l', 's', 'b'],
        EventType::ParamSetGetAbsoluteParamIdx => seq!['p', 'a', 'r', 'a', 'm', 's', 'e', 't', '-', 'g', 'e', 't', '-', 'a', 'b', 's', 'o', 'l', 'u', 't', 'e', '-', 'p', 'a', 'r', 'a', 'm', '-', 'i', 'n', 'd', 'e', 'x'],
        EventType::ParamSetGetParam => seq!['p', 'a', 'r', 'a', 'm', 's', 'e', 't', '-', 'g', 'e', 't', '-', 'p', 'a', 'r', 'a', 'm'],
        EventType::ParamSetSetParam => seq!['p', 'a', 'r', 'a', 'm', 's', 'e', 't', '-', 's', 'e', 't', '-', 'p', 'a', 'r', 'a', 'm'],
        EventType::LogFaderVolToLinear => seq!['l', 'o', 'g', '-', 'f', 'a', 'd', 'e', 'r', '-', 't', 'o', '-', 'l', 'i', 'n', 'e', 'a', 'r'],
        EventType::VideoShowParamSetBank => seq!['v', 'i', 'd', 'e', 'o', '-', 's', 'h', 'o', 'w', '-', 'p', 'a', 'r', 'a', 'm', 's', 'e', 't', '-', 'b', 'a', 'n', 'k'],
        EventType::VideoShowParamSetPage => seq!['v', 'i', 'd', 'e', 'o', '-', 's', 'h', 'o', 'w', '-', 'p', 'a', 'r', 'a', 'm', 's', 'e', 't', '-', 'p', 'a', 'g', 'e'],
        EventType::VideoShowSnapshotPage => seq!['v', 'i', 'd', 'e', 'o', '-', 's', 'h', 'o', 'w', '-', 's', 'n', 'a', 'p', 's', 'h', 'o', 't', '-', 'p', 'a', 'g', 'e'],
        EventType::VideoShowLoop => seq!['v', 'i', 'd', 'e', 'o', '-', 's', 'h', 'o', 'w', '-', 'l', 'o', 'o', 'p'],
        EventType::VideoShowLayout => seq!['v', 'i', 'd', 'e', 'o', '-', 's', 'h', 'o', 'w', '-', 'l', 'a', 'y', 'o', 'u', 't'],
        EventType::VideoSwitchInterface => seq!['v', 'i', 'd', 'e', 'o', '-', 's', 'w', 'i', 't', 'c', 'h', '-', 'i', 'n', 't', 'e', 'r', 'f', 'a', 'c', 'e'],
        EventType::VideoShowDisplay => seq!['v', 'i', 'd', 'e', 'o', '-', 's', 'h', 'o', 'w', '-', 'd', 'i', 's', 'p', 'l', 'a', 'y'],
        EventType::VideoShowHelp => seq!['v', 'i', 'd', 'e', 'o', '-', 's', 'h', 'o', 'w', '-', 'h', 'e', 'l', 'p'],
        EventType::VideoFullScreen => seq!['v', 'i', 'd', 'e', 'o', '-', 'f', 'u', 'l', 'l', '-', 's', 'c', 'r', 'e', 'e', 'n'],
        EventType::ShowDebugInfo => seq!['s', 'h', 'o', 'w', '-', 'd', 'e', 'b', 'u', 'g', '-', 'i', 'n', 'f', 'o'],
        EventType::ToggleDiskOutput => seq!['t', 'o', 'g', 'g', 'l', 'e', '-', 'd', 'i', 's', 'k', '-', 'o', 'u', 't', 'p', 'u', 't'],
        EventType::SetAutoLoopSaving => seq!['s', 'e', 't', '-', 'a', 'u', 't', 'o', '-', 'l', 'o', 'o', 'p', '-', 's', 'a', 'v', 'i', 'n', 'g'],
        EventType::SaveLoop => seq!['s', 'a', 'v', 'e', '-', 'l', 'o', 'o', 'p'],
        EventType::SaveNewScene => seq!['s', 'a', 'v', 'e', '-', 'n', 'e', 'w', '-', 's', 'c', 'e', 'n', 'e'],
        EventType::SaveCurrentScene => seq!['s', 'a', 'v', 'e', '-', 'c', 'u', 'r', 'r', 'e', 'n', 't', '-', 's', 'c', 'e', 'n', 'e'],
        EventType::SetLoadLoopId => seq!['s', 'e', 't', '-', 'l', 'o', 'a', 'd', '-', 'l', 'o', 'o', 'p', '-', 'i', 'd'],
        EventType::SetDefaultLoopPlacement => seq!['s', 'e', 't', '-', 'd', 'e', 'f', 'a', 'u', 'l', 't', '-', 'l', 'o', 'o', 'p', '-', 'p', 'l', 'a', 'c', 'e', 'm', 'e', 'n', 't'],
        _ => Seq::empty(),
    }
}

/// Whether events of a type are delivered on the slow path.
pub open spec fn event_is_slow(t: EventType) -> bool {
    match t {
        EventType::ALSAMixerControlSet => true,
        EventType::ExitSession => true,
        EventType::MoveLoop => true,
        EventType::RenameLoop => true,
        EventType::EraseLoop => true,
        EventType::EraseAllLoops => true,
        EventType::EraseSelectedLoops => true,
        EventType::DeletePulse => true,
        EventType::SelectPulse => true,
        EventType::ToggleSelectLoop => true,
        EventType::SelectOnlyPlayingLoops => true,
        EventType::SelectAllLoops => true,
        EventType::TriggerSelectedLoops => true,
        EventType::InvertSelection => true,
        EventType::CreateSnapshot => true,
        EventType::RenameSnapshot => true,
        EventType::TriggerSnapshot => true,
        EventType::SwapSnapshots => true,
        EventType::BrowserMoveToItem => true,
        EventType::BrowserMoveToItemAbsolute => true,
        EventType::BrowserSelectItem => true,
        EventType::BrowserRenameItem => true,
        EventType::PatchBrowserMoveToBank => true,
        EventType::PatchBrowserMoveToBankByIndex => true,
        EventType::TransmitPlayingLoopsToDAW => true,
        EventType::VideoShowSnapshotPage => true,
        EventType::VideoShowLoop => true,
        EventType::VideoShowLayout => true,
        EventType::VideoSwitchInterface => true,
        EventType::VideoShowDisplay => true,
        EventType::VideoShowHelp => true,
        EventType::VideoFullScreen => true,
        EventType::ShowDebugInfo => true,
        EventType::ToggleDiskOutput => true,
        EventType::SaveLoop => true,
        EventType::SaveNewScene => true,
        EventType::SaveCurrentScene => true,
        _ => false,
    }
}

/// The event type that a configuration file names `name`.
pub open spec fn event_named(name: Seq<char>) -> Option<EventType> {
    if name.len() == 0 {
        None
    } else if name == "key"@ {
        Some(EventType::InputKey)
    } else if name == "joybutton"@ {
        Some(EventType::InputJoystickButton)
    } else if name == "mousebutton"@ {
        Some(EventType::InputMouseButton)
    } else if name == "mousemotion"@ {
        Some(EventType::InputMouseMotion)
    } else if name == "midikey"@ {
        Some(EventType::InputMIDIKey)
    } else if name == "midicontroller"@ {
        Some(EventType::InputMIDIController)
    } else if name == "midiprogramchange"@ {
        Some(EventType::InputMIDIProgramChange)
    } else if name == "midichannelpressure"@ {
        Some(EventType::InputMIDIChannelPressure)
    } else if name == "midipitchbend"@ {
        Some(EventType::InputMIDIPitchBend)
    } else if name == "midipolyphonicpressure"@ {
        Some(EventType::InputMIDIPolyphonicPressure)
    } else if name == "midisysex"@ {
        Some(EventType::InputMIDISystemExclusive)
    } else if name == "midimtcquarterframe"@ {
        Some(EventType::InputMIDITimeCodeQuarterFrame)
    } else if name == "midisongposition"@ {
        Some(EventType::InputMIDISongPosition)
    } else if name == "midisongselect"@ {
        Some(EventType::InputMIDISongSelect)
    } else if name == "miditunerequest"@ {
        Some(EventType::InputMIDITuneRequest)
    } else if name == "midiactivesensing"@ {
        Some(EventType::InputMIDIActiveSensing)
    } else if name == "midireset"@ {
        Some(EventType::InputMIDIReset)
    } else if name == "midiclock"@ {
        Some(EventType::InputMIDIClock)
    } else if name == "midistartstop"@ {
        Some(EventType::InputMIDIStartStop)
    } else if name == "end-record"@ {
        Some(EventType::EndRecord)
    } else if name == "loop-list"@ {
        Some(EventType::LoopList)
    } else if name == "scene-marker"@ {
        Some(EventType::SceneMarker)
    } else if name == "trigger-set"@ {
        Some(EventType::TriggerSet)
    } else if name == "go-sub"@ {
        Some(EventType::GoSub)
    } else if name == "loop-clicked"@ {
        Some(EventType::LoopClicked)
    } else if name == "add-processor"@ {
        Some(EventType::AddProcessor)
    } else if name == "del-processor"@ {
        Some(EventType::DelProcessor)
    } else if name == "cleanup-processor"@ {
        Some(EventType::CleanupProcessor)
    } else if name == "alsa-mixer-control-set"@ {
        Some(EventType::ALSAMixerControlSet)
    } else if name == "browser-move-to-item"@ {
        Some(EventType::BrowserMoveToItem)
    } else if name == "browser-move-to-item-absolute"@ {
        Some(EventType::BrowserMoveToItemAbsolute)
    } else if name == "browser-select-item"@ {
        Some(EventType::BrowserSelectItem)
    } else if name == "browser-rename-item"@ {
        Some(EventType::BrowserRenameItem)
    } else if name == "browser-item-browsed"@ {
        Some(EventType::BrowserItemBrowsed)
    } else if name == "patchbrowser-move-to-bank"@ {
        Some(EventType::PatchBrowserMoveToBank)
    } else if name == "patchbrowser-move-to-bank-by-index"@ {
        Some(EventType::PatchBrowserMoveToBankByIndex)
    } else if name == "start-freewheeling"@ {
        Some(EventType::StartSession)
    } else if name == "start-interface"@ {
        Some(EventType::StartInterface)
    } else if name == "exit-freewheeling"@ {
        Some(EventType::ExitSession)
    } else if name == "fluidsynth-enable"@ {
        Some(EventType::FluidSynthEnable)
    } else if name == "set-midi-tuning"@ {
        Some(EventType::SetMidiTuning)
    } else if name == "video-show-loop"@ {
        Some(EventType::VideoShowLoop)
    } else if name == "video-show-layout"@ {
        Some(EventType::VideoShowLayout)
    } else if name == "video-show-snapshot-page"@ {
        Some(EventType::VideoShowSnapshotPage)
    } else if name == "video-show-paramset-bank"@ {
        Some(EventType::VideoShowParamSetBank)
    } else if name == "video-show-paramset-page"@ {
        Some(EventType::VideoShowParamSetPage)
    } else if name == "video-switch-interface"@ {
        Some(EventType::VideoSwitchInterface)
    } else if name == "video-show-display"@ {
        Some(EventType::VideoShowDisplay)
    } else if name == "video-show-help"@ {
        Some(EventType::VideoShowHelp)
    } else if name == "video-full-screen"@ {
        Some(EventType::VideoFullScreen)
    } else if name == "show-debug-info"@ {
        Some(EventType::ShowDebugInfo)
    } else if name == "slide-master-in-volume"@ {
        Some(EventType::SlideMasterInVolume)
    } else if name == "slide-master-out-volume"@ {
        Some(EventType::SlideMasterOutVolume)
    } else if name == "slide-in-volume"@ {
        Some(EventType::SlideInVolume)
    } else if name == "set-master-in-volume"@ {
        Some(EventType::SetMasterInVolume)
    } else if name == "set-master-out-volume"@ {
        Some(EventType::SetMasterOutVolume)
    } else if name == "set-in-volume"@ {
        Some(EventType::SetInVolume)
    } else if name == "toggle-input-record"@ {
        Some(EventType::ToggleInputRecord)
    } else if name == "set-midi-echo-port"@ {
        Some(EventType::SetMidiEchoPort)
    } else if name == "set-midi-echo-channel"@ {
        Some(EventType::SetMidiEchoChannel)
    } else if name == "adjust-midi-transpose"@ {
        Some(EventType::AdjustMidiTranspose)
    } else if name == "paramset-get-absolute-param-index"@ {
        Some(EventType::ParamSetGetAbsoluteParamIdx)
    } else if name == "paramset-get-param"@ {
        Some(EventType::ParamSetGetParam)
    } else if name == "paramset-set-param"@ {
        Some(EventType::ParamSetSetParam)
    } else if name == "log-fader-to-linear"@ {
        Some(EventType::LogFaderVolToLinear)
    } else if name == "set-trigger-volume"@ {
        Some(EventType::SetTriggerVolume)
    } else if name == "slide-loop-amplifier"@ {
        Some(EventType::SlideLoopAmp)
    } else if name == "set-loop-amplifier"@ {
        Some(EventType::SetLoopAmp)
    } else if name == "adjust-loop-amplifier"@ {
        Some(EventType::AdjustLoopAmp)
    } else if name == "rename-loop"@ {
        Some(EventType::RenameLoop)
    } else if name == "erase-selected-loops"@ {
        Some(EventType::EraseSelectedLoops)
    } else if name == "toggle-disk-output"@ {
        Some(EventType::ToggleDiskOutput)
    } else if name == "set-auto-loop-saving"@ {
        Some(EventType::SetAutoLoopSaving)
    } else if name == "save-new-scene"@ {
        Some(EventType::SaveNewScene)
    } else if name == "save-current-scene"@ {
        Some(EventType::SaveCurrentScene)
    } else if name == "set-load-loop-id"@ {
        Some(EventType::SetLoadLoopId)
    } else if name == "create-snapshot"@ {
        Some(EventType::CreateSnapshot)
    } else if name == "swap-snapshots"@ {
        Some(EventType::SwapSnapshots)
    } else if name == "rename-snapshot"@ {
        Some(EventType::RenameSnapshot)
    } else if name == "trigger-snapshot"@ {
        Some(EventType::TriggerSnapshot)
    } else if name == "transmit-playing-loops-to-daw"@ {
        Some(EventType::TransmitPlayingLoopsToDAW)
    } else if name == "toggle-select-loop"@ {
        Some(EventType::ToggleSelectLoop)
    } else if name == "select-only-playing-loops"@ {
        Some(EventType::SelectOnlyPlayingLoops)
    } else if name == "select-all-loops"@ {
        Some(EventType::SelectAllLoops)
    } else if name == "trigger-selected-loops"@ {
        Some(EventType::TriggerSelectedLoops)
    } else if name == "set-selected-loops-trigger-volume"@ {
        Some(EventType::SetSelectedLoopsTriggerVolume)
    } else if name == "adjust-selected-loops-amp"@ {
        Some(EventType::AdjustSelectedLoopsAmp)
    } else if name == "invert-selection"@ {
        Some(EventType::InvertSelection)
    } else if name == "trigger-loop"@ {
        Some(EventType::TriggerLoop)
    } else if name == "move-loop"@ {
        Some(EventType::MoveLoop)
    } else if name == "erase-loop"@ {
        Some(EventType::EraseLoop)
    } else if name == "erase-all-loops"@ {
        Some(EventType::EraseAllLoops)
    } else if name == "save-loop"@ {
        Some(EventType::SaveLoop)
    } else if name == "set-default-loop-placement"@ {
        Some(EventType::SetDefaultLoopPlacement)
    } else if name == "select-pulse"@ {
        Some(EventType::SelectPulse)
    } else if name == "delete-pulse"@ {
        Some(EventType::DeletePulse)
    } else if name == "tap-pulse"@ {
        Some(EventType::TapPulse)
    } else if name == "switch-metronome"@ {
        Some(EventType::SwitchMetronome)
    } else if name == "set-sync-type"@ {
        Some(EventType::SetSyncType)
    } else if name == "set-sync-speed"@ {
        Some(EventType::SetSyncSpeed)
    } else if name == "set-midi-sync"@ {
        Some(EventType::SetMidiSync)
    } else if name == "pulse-sync"@ {
        Some(EventType::PulseSync)
    } else if name == "slide-loop-amplifier-stop-all"@ {
        Some(EventType::SlideLoopAmpStopAll)
    } else if name == "set-variable"@ {
        Some(EventType::SetVariable)
    } else if name == "toggle-variable"@ {
        Some(EventType::ToggleVariable)
    } else if name == "split-variable-msb-lsb"@ {
        Some(EventType::SplitVariableMSBLSB)
    } else {
        None
    }
}

pub open spec fn adjust_loop_amp_params() -> Seq<ParamValue> {
    seq![("loopid"@, CoreDataType::Int, -1i32), ("ampfactor"@, CoreDataType::Float, -1i32)]
}

pub open spec fn adjust_midi_transpose_params() -> Seq<ParamValue> {
    seq![("adjust"@, CoreDataType::Int, -1i32)]
}

pub open spec fn adjust_selected_loops_amp_params() -> Seq<ParamValue> {
    seq![("setid"@, CoreDataType::Int, -1i32), ("ampfactor"@, CoreDataType::Float, -1i32)]
}

pub open spec fn alsa_mixer_control_set_params() -> Seq<ParamValue> {
    seq![("hwid"@, CoreDataType::Int, -1i32), ("numid"@, CoreDataType::Int, -1i32), ("val1"@, CoreDataType::Int, -1i32), ("val2"@, CoreDataType::Int, -1i32), ("val3"@, CoreDataType::Int, -1i32), ("val4"@, CoreDataType::Int, -1i32)]
}

pub open spec fn browser_move_absolute_params() -> Seq<ParamValue> {
    seq![("browserid"@, CoreDataType::Int, -1i32), ("idx"@, CoreDataType::Int, -1i32)]
}

pub open spec fn browser_move_params() -> Seq<ParamValue> {
    seq![("browserid"@, CoreDataType::Int, -1i32), ("adjust"@, CoreDataType::Int, -1i32), ("jumpadjust"@, CoreDataType::Int, -1i32)]
}

pub open spec fn browser_select_params() -> Seq<ParamValue> {
    seq![("browserid"@, CoreDataType::Int, -1i32)]
}

pub open spec fn enable_bool_params() -> Seq<ParamValue> {
    seq![("enable"@, CoreDataType::Char, -1i32)]
}

pub open spec fn go_sub_params() -> Seq<ParamValue> {
    seq![("sub"@, CoreDataType::Int, 127i32), ("param1"@, CoreDataType::Float, -1i32), ("param2"@, CoreDataType::Float, -1i32), ("param3"@, CoreDataType::Float, -1i32)]
}

pub open spec fn joystick_button_input_params() -> Seq<ParamValue> {
    seq![("down"@, CoreDataType::Char, -1i32), ("button"@, CoreDataType::Int, -1i32), ("joystick"@, CoreDataType::Int, -1i32)]
}

pub open spec fn key_input_params() -> Seq<ParamValue> {
    seq![("keydown"@, CoreDataType::Char, -1i32), ("key"@, CoreDataType::Int, 512i32), ("unicode"@, CoreDataType::Int, -1i32)]
}

pub open spec fn log_fader_to_linear_params() -> Seq<ParamValue> {
    seq![("var"@, CoreDataType::VariableRef, -1i32), ("fadervol"@, CoreDataType::Variable, -1i32), ("scale"@, CoreDataType::Float, -1i32)]
}

pub open spec fn loop_clicked_params() -> Seq<ParamValue> {
    seq![("down"@, CoreDataType::Char, -1i32), ("button"@, CoreDataType::Int, -1i32), ("loopid"@, CoreDataType::Int, -1i32), ("in"@, CoreDataType::Char, -1i32)]
}

pub open spec fn loop_id_params() -> Seq<ParamValue> {
    seq![("loopid"@, CoreDataType::Int, -1i32)]
}

pub open spec fn loop_range_params() -> Seq<ParamValue> {
    seq![("looprange"@, CoreDataType::Range, -1i32)]
}

pub open spec fn midi_channel_pressure_input_params() -> Seq<ParamValue> {
    seq![("outport"@, CoreDataType::Int, -1i32), ("midichannel"@, CoreDataType::Int, 16i32), ("pressureval"@, CoreDataType::Int, -1i32), ("routethroughpatch"@, CoreDataType::Char, -1i32)]
}

pub open spec fn midi_clock_input_params() -> Seq<ParamValue> {
    seq![("outport"@, CoreDataType::Int, -1i32)]
}

pub open spec fn midi_controller_input_params() -> Seq<ParamValue> {
    seq![("outport"@, CoreDataType::Int, -1i32), ("midichannel"@, CoreDataType::Int, 16i32), ("controlnum"@, CoreDataType::Int, 127i32), ("controlval"@, CoreDataType::Int, -1i32), ("routethroughpatch"@, CoreDataType::Char, -1i32)]
}

pub open spec fn midi_key_input_params() -> Seq<ParamValue> {
    seq![("outport"@, CoreDataType::Int, -1i32), ("keydown"@, CoreDataType::Char, -1i32), ("midichannel"@, CoreDataType::Int, 16i32), ("notenum"@, CoreDataType::Int, 127i32), ("velocity"@, CoreDataType::Int, -1i32), ("routethroughpatch"@, CoreDataType::Char, -1i32)]
}

pub open spec fn midi_pitch_bend_input_params() -> Seq<ParamValue> {
    seq![("outport"@, CoreDataType::Int, -1i32), ("midichannel"@, CoreDataType::Int, 16i32), ("pitchval"@, CoreDataType::Int, -1i32), ("routethroughpatch"@, CoreDataType::Char, -1i32)]
}

pub open spec fn midi_polyphonic_pressure_input_params() -> Seq<ParamValue> {
    seq![("midichannel"@, CoreDataType::Int, 16i32), ("notenum"@, CoreDataType::Int, 127i32), ("pressureval"@, CoreDataType::Int, -1i32)]
}

pub open spec fn midi_program_change_input_params() -> Seq<ParamValue> {
    seq![("outport"@, CoreDataType::Int, -1i32), ("midichannel"@, CoreDataType::Int, 16i32), ("programval"@, CoreDataType::Int, -1i32), ("routethroughpatch"@, CoreDataType::Char, -1i32)]
}

pub open spec fn midi_start_stop_input_params() -> Seq<ParamValue> {
    seq![("outport"@, CoreDataType::Int, -1i32), ("start"@, CoreDataType::Char, -1i32)]
}

pub open spec fn midi_tuning_params() -> Seq<ParamValue> {
    seq![("tuning"@, CoreDataType::Float, -1i32)]
}

pub open spec fn midi_value_input_params() -> Seq<ParamValue> {
    seq![("value"@, CoreDataType::Int, -1i32)]
}

pub open spec fn mouse_button_input_params() -> Seq<ParamValue> {
    seq![("down"@, CoreDataType::Char, -1i32), ("button"@, CoreDataType::Int, -1i32), ("x"@, CoreDataType::Int, -1i32), ("y"@, CoreDataType::Int, -1i32)]
}

pub open spec fn mouse_motion_input_params() -> Seq<ParamValue> {
    seq![("x"@, CoreDataType::Int, -1i32), ("y"@, CoreDataType::Int, -1i32)]
}

pub open spec fn move_loop_params() -> Seq<ParamValue> {
    seq![("oldloopid"@, CoreDataType::Int, -1i32), ("newloopid"@, CoreDataType::Int, -1i32)]
}

pub open spec fn paramset_abs_param_idx_params() -> Seq<ParamValue> {
    seq![("interfaceid"@, CoreDataType::Int, -1i32), ("displayid"@, CoreDataType::Int, -1i32), ("paramidx"@, CoreDataType::Int, -1i32), ("absidx"@, CoreDataType::VariableRef, -1i32)]
}

pub open spec fn paramset_get_param_params() -> Seq<ParamValue> {
    seq![("interfaceid"@, CoreDataType::Int, -1i32), ("displayid"@, CoreDataType::Int, -1i32), ("paramidx"@, CoreDataType::Int, -1i32), ("var"@, CoreDataType::VariableRef, -1i32)]
}

pub open spec fn paramset_set_param_params() -> Seq<ParamValue> {
    seq![("interfaceid"@, CoreDataType::Int, -1i32), ("displayid"@, CoreDataType::Int, -1i32), ("paramidx"@, CoreDataType::Int, -1i32), ("value"@, CoreDataType::Float, -1i32)]
}

pub open spec fn patch_bank_index_params() -> Seq<ParamValue> {
    seq![("idx"@, CoreDataType::Int, -1i32)]
}

pub open spec fn patch_bank_move_params() -> Seq<ParamValue> {
    seq![("direction"@, CoreDataType::Int, -1i32)]
}

pub open spec fn pulse_params() -> Seq<ParamValue> {
    seq![("pulse"@, CoreDataType::Int, -1i32)]
}

pub open spec fn rename_loop_params() -> Seq<ParamValue> {
    seq![("loopid"@, CoreDataType::Int, -1i32), ("in"@, CoreDataType::Char, -1i32)]
}

pub open spec fn save_bool_params() -> Seq<ParamValue> {
    seq![("save"@, CoreDataType::Char, -1i32)]
}

pub open spec fn select_all_loops_params() -> Seq<ParamValue> {
    seq![("setid"@, CoreDataType::Int, -1i32), ("select"@, CoreDataType::Char, -1i32)]
}

pub open spec fn select_only_playing_params() -> Seq<ParamValue> {
    seq![("setid"@, CoreDataType::Int, -1i32), ("playing"@, CoreDataType::Char, -1i32)]
}

pub open spec fn setid_params() -> Seq<ParamValue> {
    seq![("setid"@, CoreDataType::Int, -1i32)]
}

pub open spec fn set_in_volume_params() -> Seq<ParamValue> {
    seq![("input"@, CoreDataType::Int, -1i32), ("vol"@, CoreDataType::Float, -1i32), ("fadervol"@, CoreDataType::Float, -1i32)]
}

pub open spec fn set_loop_amp_params() -> Seq<ParamValue> {
    seq![("loopid"@, CoreDataType::Int, -1i32), ("amp"@, CoreDataType::Float, -1i32)]
}

pub open spec fn set_master_volume_params() -> Seq<ParamValue> {
    seq![("vol"@, CoreDataType::Float, -1i32), ("fadervol"@, CoreDataType::Float, -1i32)]
}

pub open spec fn set_midi_echo_channel_params() -> Seq<ParamValue> {
    seq![("echochannel"@, CoreDataType::Int, -1i32)]
}

pub open spec fn set_midi_echo_port_params() -> Seq<ParamValue> {
    seq![("echoport"@, CoreDataType::Int, -1i32)]
}

pub open spec fn set_midi_sync_params() -> Seq<ParamValue> {
    seq![("midisync"@, CoreDataType::Int, -1i32)]
}

pub open spec fn set_selected_loops_trigger_volume_params() -> Seq<ParamValue> {
    seq![("setid"@, CoreDataType::Int, -1i32), ("vol"@, CoreDataType::Float, -1i32)]
}

pub open spec fn set_sync_speed_params() -> Seq<ParamValue> {
    seq![("sspd"@, CoreDataType::Int, -1i32)]
}

pub open spec fn set_sync_type_params() -> Seq<ParamValue> {
    seq![("stype"@, CoreDataType::Char, -1i32)]
}

pub open spec fn set_trigger_volume_params() -> Seq<ParamValue> {
    seq![("loopid"@, CoreDataType::Int, -1i32), ("vol"@, CoreDataType::Float, -1i32)]
}

pub open spec fn set_variable_params() -> Seq<ParamValue> {
    seq![("var"@, CoreDataType::VariableRef, -1i32), ("value"@, CoreDataType::Variable, -1i32), ("maxjumpcheck"@, CoreDataType::Char, -1i32), ("maxjump"@, CoreDataType::Variable, -1i32)]
}

pub open spec fn show_debug_info_params() -> Seq<ParamValue> {
    seq![("show"@, CoreDataType::Char, -1i32)]
}

pub open spec fn slide_in_volume_params() -> Seq<ParamValue> {
    seq![("input"@, CoreDataType::Int, -1i32), ("slide"@, CoreDataType::Float, -1i32)]
}

pub open spec fn slide_loop_amp_params() -> Seq<ParamValue> {
    seq![("loopid"@, CoreDataType::Int, -1i32), ("slide"@, CoreDataType::Float, -1i32)]
}

pub open spec fn slide_master_volume_params() -> Seq<ParamValue> {
    seq![("slide"@, CoreDataType::Float, -1i32)]
}

pub open spec fn snapshot_id_params() -> Seq<ParamValue> {
    seq![("snapid"@, CoreDataType::Int, -1i32)]
}

pub open spec fn snapshot_swap_params() -> Seq<ParamValue> {
    seq![("snapid1"@, CoreDataType::Int, -1i32), ("snapid2"@, CoreDataType::Int, -1i32)]
}

pub open spec fn split_variable_params() -> Seq<ParamValue> {
    seq![("var"@, CoreDataType::Variable, -1i32), ("msb"@, CoreDataType::VariableRef, -1i32), ("lsb"@, CoreDataType::VariableRef, -1i32)]
}

pub open spec fn start_interface_params() -> Seq<ParamValue> {
    seq![("interfaceid"@, CoreDataType::Int, -1i32)]
}

pub open spec fn switch_metronome_params() -> Seq<ParamValue> {
    seq![("pulse"@, CoreDataType::Int, -1i32), ("metronome"@, CoreDataType::Char, -1i32)]
}

pub open spec fn tap_pulse_params() -> Seq<ParamValue> {
    seq![("pulse"@, CoreDataType::Int, -1i32), ("newlen"@, CoreDataType::Char, -1i32)]
}

pub open spec fn toggle_input_record_params() -> Seq<ParamValue> {
    seq![("input"@, CoreDataType::Int, -1i32)]
}

pub open spec fn toggle_select_loop_params() -> Seq<ParamValue> {
    seq![("setid"@, CoreDataType::Int, -1i32), ("loopid"@, CoreDataType::Int, -1i32)]
}

pub open spec fn toggle_variable_params() -> Seq<ParamValue> {
    seq![("var"@, CoreDataType::VariableRef, -1i32), ("maxvalue"@, CoreDataType::Int, -1i32), ("minvalue"@, CoreDataType::Int, -1i32)]
}

pub open spec fn trigger_loop_params() -> Seq<ParamValue> {
    seq![("loopid"@, CoreDataType::Int, -1i32), ("vol"@, CoreDataType::Float, -1i32)]
}

pub open spec fn trigger_selected_loops_params() -> Seq<ParamValue> {
    seq![("setid"@, CoreDataType::Int, -1i32), ("vol"@, CoreDataType::Float, -1i32), ("toggleloops"@, CoreDataType::Char, -1i32)]
}

pub open spec fn video_bank_params() -> Seq<ParamValue> {
    seq![("interfaceid"@, CoreDataType::Int, -1i32), ("displayid"@, CoreDataType::Int, -1i32), ("bank"@, CoreDataType::Int, -1i32)]
}

pub open spec fn video_display_show_params() -> Seq<ParamValue> {
    seq![("interfaceid"@, CoreDataType::Int, -1i32), ("displayid"@, CoreDataType::Int, -1i32), ("show"@, CoreDataType::Char, -1i32)]
}

pub open spec fn video_fullscreen_params() -> Seq<ParamValue> {
    seq![("fullscreen"@, CoreDataType::Char, -1i32)]
}

pub open spec fn video_help_params() -> Seq<ParamValue> {
    seq![("page"@, CoreDataType::Int, -1i32)]
}

pub open spec fn video_layout_show_params() -> Seq<ParamValue> {
    seq![("interfaceid"@, CoreDataType::Int, -1i32), ("layoutid"@, CoreDataType::Int, -1i32), ("show"@, CoreDataType::Char, -1i32), ("hideothers"@, CoreDataType::Char, -1i32)]
}

pub open spec fn video_page_params() -> Seq<ParamValue> {
    seq![("interfaceid"@, CoreDataType::Int, -1i32), ("displayid"@, CoreDataType::Int, -1i32), ("page"@, CoreDataType::Int, -1i32)]
}

pub open spec fn video_show_loop_params() -> Seq<ParamValue> {
    seq![("interfaceid"@, CoreDataType::Int, -1i32), ("layoutid"@, CoreDataType::Int, -1i32), ("loopid"@, CoreDataType::Range, -1i32)]
}

/// The parameters that events of a type carry.
pub open spec fn event_parameters(t: EventType) -> Seq<ParamValue> {
    match t {
        EventType::InputKey => key_input_params(),
        EventType::InputJoystickButton => joystick_button_input_params(),
        EventType::InputMouseButton => mouse_button_input_params(),
        EventType::InputMouseMotion => mouse_motion_input_params(),
        EventType::InputMIDIController => midi_controller_input_params(),
        EventType::InputMIDIProgramChange => midi_program_change_input_params(),
        EventType::InputMIDIChannelPressure => midi_channel_pressure_input_params(),
        EventType::InputMIDIPitchBend => midi_pitch_bend_input_params(),
        EventType::InputMIDIPolyphonicPressure => midi_polyphonic_pressure_input_params(),
        EventType::InputMIDITimeCodeQuarterFrame | EventType::InputMIDISongPosition | EventType::InputMIDISongSelect => midi_value_input_params(),
        EventType::InputMIDIKey => midi_key_input_params(),
        EventType::GoSub => go_sub_params(),
        EventType::LoopClicked => loop_clicked_params(),
        EventType::ALSAMixerControlSet => alsa_mixer_control_set_params(),
        EventType::ParamSetGetAbsoluteParamIdx => paramset_abs_param_idx_params(),
        EventType::ParamSetGetParam => paramset_get_param_params(),
        EventType::ParamSetSetParam => paramset_set_param_params(),
        EventType::LogFaderVolToLinear => log_fader_to_linear_params(),
        EventType::FluidSynthEnable => enable_bool_params(),
        EventType::SetMidiTuning => midi_tuning_params(),
        EventType::SlideMasterInVolume => slide_master_volume_params(),
        EventType::SlideMasterOutVolume => slide_master_volume_params(),
        EventType::BrowserMoveToItem => browser_move_params(),
        EventType::BrowserMoveToItemAbsolute => browser_move_absolute_params(),
        EventType::BrowserSelectItem => browser_select_params(),
        EventType::BrowserRenameItem => browser_select_params(),
        EventType::BrowserItemBrowsed => browser_select_params(),
        EventType::PatchBrowserMoveToBank => patch_bank_move_params(),
        EventType::PatchBrowserMoveToBankByIndex => patch_bank_index_params(),
        EventType::StartInterface => start_interface_params(),
        EventType::VideoShowLoop => video_show_loop_params(),
        EventType::VideoShowLayout => video_layout_show_params(),
        EventType::VideoShowSnapshotPage => video_page_params(),
        EventType::VideoShowParamSetBank => video_bank_params(),
        EventType::VideoShowParamSetPage => video_page_params(),
        EventType::VideoSwitchInterface => start_interface_params(),
        EventType::VideoShowDisplay => video_display_show_params(),
        EventType::VideoShowHelp => video_help_params(),
        EventType::VideoFullScreen => video_fullscreen_params(),
        EventType::ShowDebugInfo => show_debug_info_params(),
        EventType::SlideInVolume => slide_in_volume_params(),
        EventType::SetMasterInVolume => set_master_volume_params(),
        EventType::SetMasterOutVolume => set_master_volume_params(),
        EventType::SetInVolume => set_in_volume_params(),
        EventType::ToggleInputRecord => toggle_input_record_params(),
        EventType::SetMidiEchoPort => set_midi_echo_port_params(),
        EventType::SetMidiEchoChannel => set_midi_echo_channel_params(),
        EventType::AdjustMidiTranspose => adjust_midi_transpose_params(),
        EventType::SetTriggerVolume => set_trigger_volume_params(),
        EventType::SlideLoopAmp => slide_loop_amp_params(),
        EventType::SetLoopAmp => set_loop_amp_params(),
        EventType::AdjustLoopAmp => adjust_loop_amp_params(),
        EventType::RenameLoop => rename_loop_params(),
        EventType::ToggleSelectLoop => toggle_select_loop_params(),
        EventType::SelectOnlyPlayingLoops => select_only_playing_params(),
        EventType::SelectAllLoops => select_all_loops_params(),
        EventType::TriggerSelectedLoops => trigger_selected_loops_params(),
        EventType::SetSelectedLoopsTriggerVolume => set_selected_loops_trigger_volume_params(),
        EventType::AdjustSelectedLoopsAmp => adjust_selected_loops_amp_params(),
        EventType::InvertSelection => setid_params(),
        EventType::CreateSnapshot => snapshot_id_params(),
        EventType::RenameSnapshot => snapshot_id_params(),
        EventType::TriggerSnapshot => snapshot_id_params(),
        EventType::SwapSnapshots => snapshot_swap_params(),
        EventType::TriggerLoop => trigger_loop_params(),
        EventType::MoveLoop => move_loop_params(),
        EventType::EraseLoop => loop_id_params(),
        EventType::EraseSelectedLoops => setid_params(),
        EventType::ToggleDiskOutput => Seq::empty(),
        EventType::SetAutoLoopSaving => save_bool_params(),
        EventType::SaveLoop => loop_id_params(),
        EventType::SaveNewScene => Seq::empty(),
        EventType::SaveCurrentScene => Seq::empty(),
        EventType::SetLoadLoopId => loop_id_params(),
        EventType::SetDefaultLoopPlacement => loop_range_params(),
        EventType::SelectPulse => pulse_params(),
        EventType::DeletePulse => pulse_params(),
        EventType::TapPulse => tap_pulse_params(),
        EventType::SwitchMetronome => switch_metronome_params(),
        EventType::SetSyncType => set_sync_type_params(),
        EventType::SetSyncSpeed => set_sync_speed_params(),
        EventType::SetMidiSync => set_midi_sync_params(),
        EventType::PulseSync => Seq::empty(),
        EventType::SlideLoopAmpStopAll => Seq::empty(),
        EventType::TransmitPlayingLoopsToDAW => Seq::empty(),
        EventType::SetVariable => set_variable_params(),
        EventType::ToggleVariable => toggle_variable_params(),
        EventType::SplitVariableMSBLSB => split_variable_params(),
        EventType::InputMIDIClock => midi_clock_input_params(),
        EventType::InputMIDIStartStop => midi_start_stop_input_params(),
        EventType::InputMIDITuneRequest => Seq::empty(),
        EventType::InputMIDIActiveSensing => Seq::empty(),
        EventType::InputMIDIReset => Seq::empty(),
        _ => Seq::empty(),
    }
}

fn make_adjust_loop_amp_params() -> (r: Vec<EventParameter>)
    ensures
        params_view(r@) == adjust_loop_amp_params(),
{
    let mut r: Vec<EventParameter> = Vec::new();
    r.push(EventParameter::new("loopid", CoreDataType::Int));
    r.push(EventParameter::new("ampfactor", CoreDataType::Float));
    assert(params_view(r@) =~= adjust_loop_amp_params());
    r
}

fn make_adjust_midi_transpose_params() -> (r: Vec<EventParameter>)
    ensures
        params_view(r@) == adjust_midi_transpose_params(),
{
    let mut r: Vec<EventParameter> = Vec::new();
    r.push(EventParameter::new("adjust", CoreDataType::Int));
    assert(params_view(r@) =~= adjust_midi_transpose_params());
    r
}

fn make_adjust_selected_loops_amp_params() -> (r: Vec<EventParameter>)
    ensures
        params_view(r@) == adjust_selected_loops_amp_params(),
{
    let mut r: Vec<EventParameter> = Vec::new();
    r.push(EventParameter::new("setid", CoreDataType::Int));
    r.push(EventParameter::new("ampfactor", CoreDataType::Float));
    assert(params_view(r@) =~= adjust_selected_loops_amp_params());
    r
}

fn make_alsa_mixer_control_set_params() -> (r: Vec<EventParameter>)
    ensures
        params_view(r@) == alsa_mixer_control_set_params(),
{
    let mut r: Vec<EventParameter> = Vec::new();
    r.push(EventParameter::new("hwid", CoreDataType::Int));
    r.push(EventParameter::new("numid", CoreDataType::Int));
    r.push(EventParameter::new("val1", CoreDataType::Int));
    r.push(EventParameter::new("val2", CoreDataType::Int));
    r.push(EventParameter::new("val3", CoreDataType::Int));
    r.push(EventParameter::new("val4", CoreDataType::Int));
    assert(params_view(r@) =~= alsa_mixer_control_set_params());
    r
}

fn make_browser_move_absolute_params() -> (r: Vec<EventParameter>)
    ensures
        params_view(r@) == browser_move_absolute_params(),
{
    let mut r: Vec<EventParameter> = Vec::new();
    r.push(EventParameter::new("browserid", CoreDataType::Int));
    r.push(EventParameter::new("idx", CoreDataType::Int));
    assert(params_view(r@) =~= browser_move_absolute_params());
    r
}

fn make_browser_move_params() -> (r: Vec<EventParameter>)
    ensures
        params_view(r@) == browser_move_params(),
{
    let mut r: Vec<EventParameter> = Vec::new();
    r.push(EventParameter::new("browserid", CoreDataType::Int));
    r.push(EventParameter::new("adjust", CoreDataType::Int));
    r.push(EventParameter::new("jumpadjust", CoreDataType::Int));
    assert(params_view(r@) =~= browser_move_params());
    r
}

fn make_browser_select_params() -> (r: Vec<EventParameter>)
    ensures
        params_view(r@) == browser_select_params(),
{
    let mut r: Vec<EventParameter> = Vec::new();
    r.push(EventParameter::new("browserid", CoreDataType::Int));
    assert(params_view(r@) =~= browser_select_params());
    r
}

fn make_enable_bool_params() -> (r: Vec<EventParameter>)
    ensures
        params_view(r@) == enable_bool_params(),
{
    let mut r: Vec<EventParameter> = Vec::new();
    r.push(EventParameter::new("enable", CoreDataType::Char));
    assert(params_view(r@) =~= enable_bool_params());
    r
}

fn make_go_sub_params() -> (r: Vec<EventParameter>)
    ensures
        params_view(r@) == go_sub_params(),
{
    let mut r: Vec<EventParameter> = Vec::new();
    r.push(EventParameter::with_max_index("sub", CoreDataType::Int, 127));
    r.push(EventParameter::new("param1", CoreDataType::Float));
    r.push(EventParameter::new("param2", CoreDataType::Float));
    r.push(EventParameter::new("param3", CoreDataType::Float));
    assert(params_view(r@) =~= go_sub_params());
    r
}

fn make_joystick_button_input_params() -> (r: Vec<EventParameter>)
    ensures
        params_view(r@) == joystick_button_input_params(),
{
    let mut r: Vec<EventParameter> = Vec::new();
    r.push(EventParameter::new("down", CoreDataType::Char));
    r.push(EventParameter::new("button", CoreDataType::Int));
    r.push(EventParameter::new("joystick", CoreDataType::Int));
    assert(params_view(r@) =~= joystick_button_input_params());
    r
}

fn make_key_input_params() -> (r: Vec<EventParameter>)
    ensures
        params_view(r@) == key_input_params(),
{
    let mut r: Vec<EventParameter> = Vec::new();
    r.push(EventParameter::new("keydown", CoreDataType::Char));
    r.push(EventParameter::with_max_index("key", CoreDataType::Int, 512));
    r.push(EventParameter::new("unicode", CoreDataType::Int));
    assert(params_view(r@) =~= key_input_params());
    r
}

fn make_log_fader_to_linear_params() -> (r: Vec<EventParameter>)
    ensures
        params_view(r@) == log_fader_to_linear_params(),
{
    let mut r: Vec<EventParameter> = Vec::new();
    r.push(EventParameter::new("var", CoreDataType::VariableRef));
    r.push(EventParameter::new("fadervol", CoreDataType::Variable));
    r.push(EventParameter::new("scale", CoreDataType::Float));
    assert(params_view(r@) =~= log_fader_to_linear_params());
    r
}

fn make_loop_clicked_params() -> (r: Vec<EventParameter>)
    ensures
        params_view(r@) == loop_clicked_params(),
{
    let mut r: Vec<EventParameter> = Vec::new();
    r.push(EventParameter::new("down", CoreDataType::Char));
    r.push(EventParameter::new("button", CoreDataType::Int));
    r.push(EventParameter::new("loopid", CoreDataType::Int));
    r.push(EventParameter::new("in", CoreDataType::Char));
    assert(params_view(r@) =~= loop_clicked_params());
    r
}

fn make_loop_id_params() -> (r: Vec<EventParameter>)
    ensures
        params_view(r@) == loop_id_params(),
{
    let mut r: Vec<EventParameter> = Vec::new();
    r.push(EventParameter::new("loopid", CoreDataType::Int));
    assert(params_view(r@) =~= loop_id_params());
    r
}

fn make_loop_range_params() -> (r: Vec<EventParameter>)
    ensures
        params_view(r@) == loop_range_params(),
{
    let mut r: Vec<EventParameter> = Vec::new();
    r.push(EventParameter::new("looprange", CoreDataType::Range));
    assert(params_view(r@) =~= loop_range_params());
    r
}

fn make_midi_channel_pressure_input_params() -> (r: Vec<EventParameter>)
    ensures
        params_view(r@) == midi_channel_pressure_input_params(),
{
    let mut r: Vec<EventParameter> = Vec::new();
    r.push(EventParameter::new("outport", CoreDataType::Int));
    r.push(EventParameter::with_max_index("midichannel", CoreDataType::Int, 16));
    r.push(EventParameter::new("pressureval", CoreDataType::Int));
    r.push(EventParameter::new("routethroughpatch", CoreDataType::Char));
    assert(params_view(r@) =~= midi_channel_pressure_input_params());
    r
}

fn make_midi_clock_input_params() -> (r: Vec<EventParameter>)
    ensures
        params_view(r@) == midi_clock_input_params(),
{
    let mut r: Vec<EventParameter> = Vec::new();
    r.push(EventParameter::new("outport", CoreDataType::Int));
    assert(params_view(r@) =~= midi_clock_input_params());
    r
}

fn make_midi_controller_input_params() -> (r: Vec<EventParameter>)
    ensures
        params_view(r@) == midi_controller_input_params(),
{
    let mut r: Vec<EventParameter> = Vec::new();
    r.push(EventParameter::new("outport", CoreDataType::Int));
    r.push(EventParameter::with_max_index("midichannel", CoreDataType::Int, 16));
    r.push(EventParameter::with_max_index("controlnum", CoreDataType::Int, 127));
    r.push(EventParameter::new("controlval", CoreDataType::Int));
    r.push(EventParameter::new("routethroughpatch", CoreDataType::Char));
    assert(params_view(r@) =~= midi_controller_input_params());
    r
}

fn make_midi_key_input_params() -> (r: Vec<EventParameter>)
    ensures
        params_view(r@) == midi_key_input_params(),
{
    let mut r: Vec<EventParameter> = Vec::new();
    r.push(EventParameter::new("outport", CoreDataType::Int));
    r.push(EventParameter::new("keydown", CoreDataType::Char));
    r.push(EventParameter::with_max_index("midichannel", CoreDataType::Int, 16));
    r.push(EventParameter::with_max_index("notenum", CoreDataType::Int, 127));
    r.push(EventParameter::new("velocity", CoreDataType::Int));
    r.push(EventParameter::new("routethroughpatch", CoreDataType::Char));
    assert(params_view(r@) =~= midi_key_input_params());
    r
}

fn make_midi_pitch_bend_input_params() -> (r: Vec<EventParameter>)
    ensures
        params_view(r@) == midi_pitch_bend_input_params(),
{
    let mut r: Vec<EventParameter> = Vec::new();
    r.push(EventParameter::new("outport", CoreDataType::Int));
    r.push(EventParameter::with_max_index("midichannel", CoreDataType::Int, 16));
    r.push(EventParameter::new("pitchval", CoreDataType::Int));
    r.push(EventParameter::new("routethroughpatch", CoreDataType::Char));
    assert(params_view(r@) =~= midi_pitch_bend_input_params());
    r
}

fn make_midi_polyphonic_pressure_input_params() -> (r: Vec<EventParameter>)
    ensures
        params_view(r@) == midi_polyphonic_pressure_input_params(),
{
    let mut r: Vec<EventParameter> = Vec::new();
    r.push(EventParameter::with_max_index("midichannel", CoreDataType::Int, 16));
    r.push(EventParameter::with_max_index("notenum", CoreDataType::Int, 127));
    r.push(EventParameter::new("pressureval", CoreDataType::Int));
    assert(params_view(r@) =~= midi_polyphonic_pressure_input_params());
    r
}

fn make_midi_program_change_input_params() -> (r: Vec<EventParameter>)
    ensures
        params_view(r@) == midi_program_change_input_params(),
{
    let mut r: Vec<EventParameter> = Vec::new();
    r.push(EventParameter::new("outport", CoreDataType::Int));
    r.push(EventParameter::with_max_index("midichannel", CoreDataType::Int, 16));
    r.push(EventParameter::new("programval", CoreDataType::Int));
    r.push(EventParameter::new("routethroughpatch", CoreDataType::Char));
    assert(params_view(r@) =~= midi_program_change_input_params());
    r
}

fn make_midi_start_stop_input_params() -> (r: Vec<EventParameter>)
    ensures
        params_view(r@) == midi_start_stop_input_params(),
{
    let mut r: Vec<EventParameter> = Vec::new();
    r.push(EventParameter::new("outport", CoreDataType::Int));
    r.push(EventParameter::new("start", CoreDataType::Char));
    assert(params_view(r@) =~= midi_start_stop_input_params());
    r
}

fn make_midi_tuning_params() -> (r: Vec<EventParameter>)
    ensures
        params_view(r@) == midi_tuning_params(),
{
    let mut r: Vec<EventParameter> = Vec::new();
    r.push(EventParameter::new("tuning", CoreDataType::Float));
    assert(params_view(r@) =~= midi_tuning_params());
    r
}

fn make_midi_value_input_params() -> (r: Vec<EventParameter>)
    ensures
        params_view(r@) == midi_value_input_params(),
{
    let mut r: Vec<EventParameter> = Vec::new();
    r.push(EventParameter::new("value", CoreDataType::Int));
    assert(params_view(r@) =~= midi_value_input_params());
    r
}

fn make_mouse_button_input_params() -> (r: Vec<EventParameter>)
    ensures
        params_view(r@) == mouse_button_input_params(),
{
    let mut r: Vec<EventParameter> = Vec::new();
    r.push(EventParameter::new("down", CoreDataType::Char));
    r.push(EventParameter::new("button", CoreDataType::Int));
    r.push(EventParameter::new("x", CoreDataType::Int));
    r.push(EventParameter::new("y", CoreDataType::Int));
    assert(params_view(r@) =~= mouse_button_input_params());
    r
}

fn make_mouse_motion_input_params() -> (r: Vec<EventParameter>)
    ensures
        params_view(r@) == mouse_motion_input_params(),
{
    let mut r: Vec<EventParameter> = Vec::new();
    r.push(EventParameter::new("x", CoreDataType::Int));
    r.push(EventParameter::new("y", CoreDataType::Int));
    assert(params_view(r@) =~= mouse_motion_input_params());
    r
}

fn make_move_loop_params() -> (r: Vec<EventParameter>)
    ensures
        params_view(r@) == move_loop_params(),
{
    let mut r: Vec<EventParameter> = Vec::new();
    r.push(EventParameter::new("oldloopid", CoreDataType::Int));
    r.push(EventParameter::new("newloopid", CoreDataType::Int));
    assert(params_view(r@) =~= move_loop_params());
    r
}

fn make_paramset_abs_param_idx_params() -> (r: Vec<EventParameter>)
    ensures
        params_view(r@) == paramset_abs_param_idx_params(),
{
    let mut r: Vec<EventParameter> = Vec::new();
    r.push(EventParameter::new("interfaceid", CoreDataType::Int));
    r.push(EventParameter::new("displayid", CoreDataType::Int));
    r.push(EventParameter::new("paramidx", CoreDataType::Int));
    r.push(EventParameter::new("absidx", CoreDataType::VariableRef));
    assert(params_view(r@) =~= paramset_abs_param_idx_params());
    r
}

fn make_paramset_get_param_params() -> (r: Vec<EventParameter>)
    ensures
        params_view(r@) == paramset_get_param_params(),
{
    let mut r: Vec<EventParameter> = Vec::new();
    r.push(EventParameter::new("interfaceid", CoreDataType::Int));
    r.push(EventParameter::new("displayid", CoreDataType::Int));
    r.push(EventParameter::new("paramidx", CoreDataType::Int));
    r.push(EventParameter::new("var", CoreDataType::VariableRef));
    assert(params_view(r@) =~= paramset_get_param_params());
    r
}

fn make_paramset_set_param_params() -> (r: Vec<EventParameter>)
    ensures
        params_view(r@) == paramset_set_param_params(),
{
    let mut r: Vec<EventParameter> = Vec::new();
    r.push(EventParameter::new("interfaceid", CoreDataType::Int));
    r.push(EventParameter::new("displayid", CoreDataType::Int));
    r.push(EventParameter::new("paramidx", CoreDataType::Int));
    r.push(EventParameter::new("value", CoreDataType::Float));
    assert(params_view(r@) =~= paramset_set_param_params());
    r
}

fn make_patch_bank_index_params() -> (r: Vec<EventParameter>)
    ensures
        params_view(r@) == patch_bank_index_params(),
{
    let mut r: Vec<EventParameter> = Vec::new();
    r.push(EventParameter::new("idx", CoreDataType::Int));
    assert(params_view(r@) =~= patch_bank_index_params());
    r
}

fn make_patch_bank_move_params() -> (r: Vec<EventParameter>)
    ensures
        params_view(r@) == patch_bank_move_params(),
{
    let mut r: Vec<EventParameter> = Vec::new();
    r.push(EventParameter::new("direction", CoreDataType::Int));
    assert(params_view(r@) =~= patch_bank_move_params());
    r
}

fn make_pulse_params() -> (r: Vec<EventParameter>)
    ensures
        params_view(r@) == pulse_params(),
{
    let mut r: Vec<EventParameter> = Vec::new();
    r.push(EventParameter::new("pulse", CoreDataType::Int));
    assert(params_view(r@) =~= pulse_params());
    r
}

fn make_rename_loop_params() -> (r: Vec<EventParameter>)
    ensures
        params_view(r@) == rename_loop_params(),
{
    let mut r: Vec<EventParameter> = Vec::new();
    r.push(EventParameter::new("loopid", CoreDataType::Int));
    r.push(EventParameter::new("in", CoreDataType::Char));
    assert(params_view(r@) =~= rename_loop_params());
    r
}

fn make_save_bool_params() -> (r: Vec<EventParameter>)
    ensures
        params_view(r@) == save_bool_params(),
{
    let mut r: Vec<EventParameter> = Vec::new();
    r.push(EventParameter::new("save", CoreDataType::Char));
    assert(params_view(r@) =~= save_bool_params());
    r
}

fn make_select_all_loops_params() -> (r: Vec<EventParameter>)
    ensures
        params_view(r@) == select_all_loops_params(),
{
    let mut r: Vec<EventParameter> = Vec::new();
    r.push(EventParameter::new("setid", CoreDataType::Int));
    r.push(EventParameter::new("select", CoreDataType::Char));
    assert(params_view(r@) =~= select_all_loops_params());
    r
}

fn make_select_only_playing_params() -> (r: Vec<EventParameter>)
    ensures
        params_view(r@) == select_only_playing_params(),
{
    let mut r: Vec<EventParameter> = Vec::new();
    r.push(EventParameter::new("setid", CoreDataType::Int));
    r.push(EventParameter::new("playing", CoreDataType::Char));
    assert(params_view(r@) =~= select_only_playing_params());
    r
}

fn make_setid_params() -> (r: Vec<EventParameter>)
    ensures
        params_view(r@) == setid_params(),
{
    let mut r: Vec<EventParameter> = Vec::new();
    r.push(EventParameter::new("setid", CoreDataType::Int));
    assert(params_view(r@) =~= setid_params());
    r
}

fn make_set_in_volume_params() -> (r: Vec<EventParameter>)
    ensures
        params_view(r@) == set_in_volume_params(),
{
    let mut r: Vec<EventParameter> = Vec::new();
    r.push(EventParameter::new("input", CoreDataType::Int));
    r.push(EventParameter::new("vol", CoreDataType::Float));
    r.push(EventParameter::new("fadervol", CoreDataType::Float));
    assert(params_view(r@) =~= set_in_volume_params());
    r
}

fn make_set_loop_amp_params() -> (r: Vec<EventParameter>)
    ensures
        params_view(r@) == set_loop_amp_params(),
{
    let mut r: Vec<EventParameter> = Vec::new();
    r.push(EventParameter::new("loopid", CoreDataType::Int));
    r.push(EventParameter::new("amp", CoreDataType::Float));
    assert(params_view(r@) =~= set_loop_amp_params());
    r
}

fn make_set_master_volume_params() -> (r: Vec<EventParameter>)
    ensures
        params_view(r@) == set_master_volume_params(),
{
    let mut r: Vec<EventParameter> = Vec::new();
    r.push(EventParameter::new("vol", CoreDataType::Float));
    r.push(EventParameter::new("fadervol", CoreDataType::Float));
    assert(params_view(r@) =~= set_master_volume_params());
    r
}

fn make_set_midi_echo_channel_params() -> (r: Vec<EventParameter>)
    ensures
        params_view(r@) == set_midi_echo_channel_params(),
{
    let mut r: Vec<EventParameter> = Vec::new();
    r.push(EventParameter::new("echochannel", CoreDataType::Int));
    assert(params_view(r@) =~= set_midi_echo_channel_params());
    r
}

fn make_set_midi_echo_port_params() -> (r: Vec<EventParameter>)
    ensures
        params_view(r@) == set_midi_echo_port_params(),
{
    let mut r: Vec<EventParameter> = Vec::new();
    r.push(EventParameter::new("echoport", CoreDataType::Int));
    assert(params_view(r@) =~= set_midi_echo_port_params());
    r
}

fn make_set_midi_sync_params() -> (r: Vec<EventParameter>)
    ensures
        params_view(r@) == set_midi_sync_params(),
{
    let mut r: Vec<EventParameter> = Vec::new();
    r.push(EventParameter::new("midisync", CoreDataType::Int));
    assert(params_view(r@) =~= set_midi_sync_params());
    r
}

fn make_set_selected_loops_trigger_volume_params() -> (r: Vec<EventParameter>)
    ensures
        params_view(r@) == set_selected_loops_trigger_volume_params(),
{
    let mut r: Vec<EventParameter> = Vec::new();
    r.push(EventParameter::new("setid", CoreDataType::Int));
    r.push(EventParameter::new("vol", CoreDataType::Float));
    assert(params_view(r@) =~= set_selected_loops_trigger_volume_params());
    r
}

fn make_set_sync_speed_params() -> (r: Vec<EventParameter>)
    ensures
        params_view(r@) == set_sync_speed_params(),
{
    let mut r: Vec<EventParameter> = Vec::new();
    r.push(EventParameter::new("sspd", CoreDataType::Int));
    assert(params_view(r@) =~= set_sync_speed_params());
    r
}

fn make_set_sync_type_params() -> (r: Vec<EventParameter>)
    ensures
        params_view(r@) == set_sync_type_params(),
{
    let mut r: Vec<EventParameter> = Vec::new();
    r.push(EventParameter::new("stype", CoreDataType::Char));
    assert(params_view(r@) =~= set_sync_type_params());
    r
}

fn make_set_trigger_volume_params() -> (r: Vec<EventParameter>)
    ensures
        params_view(r@) == set_trigger_volume_params(),
{
    let mut r: Vec<EventParameter> = Vec::new();
    r.push(EventParameter::new("loopid", CoreDataType::Int));
    r.push(EventParameter::new("vol", CoreDataType::Float));
    assert(params_view(r@) =~= set_trigger_volume_params());
    r
}

fn make_set_variable_params() -> (r: Vec<EventParameter>)
    ensures
        params_view(r@) == set_variable_params(),
{
    let mut r: Vec<EventParameter> = Vec::new();
    r.push(EventParameter::new("var", CoreDataType::VariableRef));
    r.push(EventParameter::new("value", CoreDataType::Variable));
    r.push(EventParameter::new("maxjumpcheck", CoreDataType::Char));
    r.push(EventParameter::new("maxjump", CoreDataType::Variable));
    assert(params_view(r@) =~= set_variable_params());
    r
}

fn make_show_debug_info_params() -> (r: Vec<EventParameter>)
    ensures
        params_view(r@) == show_debug_info_params(),
{
    let mut r: Vec<EventParameter> = Vec::new();
    r.push(EventParameter::new("show", CoreDataType::Char));
    assert(params_view(r@) =~= show_debug_info_params());
    r
}

fn make_slide_in_volume_params() -> (r: Vec<EventParameter>)
    ensures
        params_view(r@) == slide_in_volume_params(),
{
    let mut r: Vec<EventParameter> = Vec::new();
    r.push(EventParameter::new("input", CoreDataType::Int));
    r.push(EventParameter::new("slide", CoreDataType::Float));
    assert(params_view(r@) =~= slide_in_volume_params());
    r
}

fn make_slide_loop_amp_params() -> (r: Vec<EventParameter>)
    ensures
        params_view(r@) == slide_loop_amp_params(),
{
    let mut r: Vec<EventParameter> = Vec::new();
    r.push(EventParameter::new("loopid", CoreDataType::Int));
    r.push(EventParameter::new("slide", CoreDataType::Float));
    assert(params_view(r@) =~= slide_loop_amp_params());
    r
}

fn make_slide_master_volume_params() -> (r: Vec<EventParameter>)
    ensures
        params_view(r@) == slide_master_volume_params(),
{
    let mut r: Vec<EventParameter> = Vec::new();
    r.push(EventParameter::new("slide", CoreDataType::Float));
    assert(params_view(r@) =~= slide_master_volume_params());
    r
}

fn make_snapshot_id_params() -> (r: Vec<EventParameter>)
    ensures
        params_view(r@) == snapshot_id_params(),
{
    let mut r: Vec<EventParameter> = Vec::new();
    r.push(EventParameter::new("snapid", CoreDataType::Int));
    assert(params_view(r@) =~= snapshot_id_params());
    r
}

fn make_snapshot_swap_params() -> (r: Vec<EventParameter>)
    ensures
        params_view(r@) == snapshot_swap_params(),
{
    let mut r: Vec<EventParameter> = Vec::new();
    r.push(EventParameter::new("snapid1", CoreDataType::Int));
    r.push(EventParameter::new("snapid2", CoreDataType::Int));
    assert(params_view(r@) =~= snapshot_swap_params());
    r
}

fn make_split_variable_params() -> (r: Vec<EventParameter>)
    ensures
        params_view(r@) == split_variable_params(),
{
    let mut r: Vec<EventParameter> = Vec::new();
    r.push(EventParameter::new("var", CoreDataType::Variable));
    r.push(EventParameter::new("msb", CoreDataType::VariableRef));
    r.push(EventParameter::new("lsb", CoreDataType::VariableRef));
    assert(params_view(r@) =~= split_variable_params());
    r
}

fn make_start_interface_params() -> (r: Vec<EventParameter>)
    ensures
        params_view(r@) == start_interface_params(),
{
    let mut r: Vec<EventParameter> = Vec::new();
    r.push(EventParameter::new("interfaceid", CoreDataType::Int));
    assert(params_view(r@) =~= start_interface_params());
    r
}

fn make_switch_metronome_params() -> (r: Vec<EventParameter>)
    ensures
        params_view(r@) == switch_metronome_params(),
{
    let mut r: Vec<EventParameter> = Vec::new();
    r.push(EventParameter::new("pulse", CoreDataType::Int));
    r.push(EventParameter::new("metronome", CoreDataType::Char));
    assert(params_view(r@) =~= switch_metronome_params());
    r
}

fn make_tap_pulse_params() -> (r: Vec<EventParameter>)
    ensures
        params_view(r@) == tap_pulse_params(),
{
    let mut r: Vec<EventParameter> = Vec::new();
    r.push(EventParameter::new("pulse", CoreDataType::Int));
    r.push(EventParameter::new("newlen", CoreDataType::Char));
    assert(params_view(r@) =~= tap_pulse_params());
    r
}

fn make_toggle_input_record_params() -> (r: Vec<EventParameter>)
    ensures
        params_view(r@) == toggle_input_record_params(),
{
    let mut r: Vec<EventParameter> = Vec::new();
    r.push(EventParameter::new("input", CoreDataType::Int));
    assert(params_view(r@) =~= toggle_input_record_params());
    r
}

fn make_toggle_select_loop_params() -> (r: Vec<EventParameter>)
    ensures
        params_view(r@) == toggle_select_loop_params(),
{
    let mut r: Vec<EventParameter> = Vec::new();
    r.push(EventParameter::new("setid", CoreDataType::Int));
    r.push(EventParameter::new("loopid", CoreDataType::Int));
    assert(params_view(r@) =~= toggle_select_loop_params());
    r
}

fn make_toggle_variable_params() -> (r: Vec<EventParameter>)
    ensures
        params_view(r@) == toggle_variable_params(),
{
    let mut r: Vec<EventParameter> = Vec::new();
    r.push(EventParameter::new("var", CoreDataType::VariableRef));
    r.push(EventParameter::new("maxvalue", CoreDataType::Int));
    r.push(EventParameter::new("minvalue", CoreDataType::Int));
    assert(params_view(r@) =~= toggle_variable_params());
    r
}

fn make_trigger_loop_params() -> (r: Vec<EventParameter>)
    ensures
        params_view(r@) == trigger_loop_params(),
{
    let mut r: Vec<EventParameter> = Vec::new();
    r.push(EventParameter::new("loopid", CoreDataType::Int));
    r.push(EventParameter::new("vol", CoreDataType::Float));
    assert(params_view(r@) =~= trigger_loop_params());
    r
}

fn make_trigger_selected_loops_params() -> (r: Vec<EventParameter>)
    ensures
        params_view(r@) == trigger_selected_loops_params(),
{
    let mut r: Vec<EventParameter> = Vec::new();
    r.push(EventParameter::new("setid", CoreDataType::Int));
    r.push(EventParameter::new("vol", CoreDataType::Float));
    r.push(EventParameter::new("toggleloops", CoreDataType::Char));
    assert(params_view(r@) =~= trigger_selected_loops_params());
    r
}

fn make_video_bank_params() -> (r: Vec<EventParameter>)
    ensures
        params_view(r@) == video_bank_params(),
{
    let mut r: Vec<EventParameter> = Vec::new();
    r.push(EventParameter::new("interfaceid", CoreDataType::Int));
    r.push(EventParameter::new("displayid", CoreDataType::Int));
    r.push(EventParameter::new("bank", CoreDataType::Int));
    assert(params_view(r@) =~= video_bank_params());
    r
}

fn make_video_display_show_params() -> (r: Vec<EventParameter>)
    ensures
        params_view(r@) == video_display_show_params(),
{
    let mut r: Vec<EventParameter> = Vec::new();
    r.push(EventParameter::new("interfaceid", CoreDataType::Int));
    r.push(EventParameter::new("displayid", CoreDataType::Int));
    r.push(EventParameter::new("show", CoreDataType::Char));
    assert(params_view(r@) =~= video_display_show_params());
    r
}

fn make_video_fullscreen_params() -> (r: Vec<EventParameter>)
    ensures
        params_view(r@) == video_fullscreen_params(),
{
    let mut r: Vec<EventParameter> = Vec::new();
    r.push(EventParameter::new("fullscreen", CoreDataType::Char));
    assert(params_view(r@) =~= video_fullscreen_params());
    r
}

fn make_video_help_params() -> (r: Vec<EventParameter>)
    ensures
        params_view(r@) == video_help_params(),
{
    let mut r: Vec<EventParameter> = Vec::new();
    r.push(EventParameter::new("page", CoreDataType::Int));
    assert(params_view(r@) =~= video_help_params());
    r
}

fn make_video_layout_show_params() -> (r: Vec<EventParameter>)
    ensures
        params_view(r@) == video_layout_show_params(),
{
    let mut r: Vec<EventParameter> = Vec::new();
    r.push(EventParameter::new("interfaceid", CoreDataType::Int));
    r.push(EventParameter::new("layoutid", CoreDataType::Int));
    r.push(EventParameter::new("show", CoreDataType::Char));
    r.push(EventParameter::new("hideothers", CoreDataType::Char));
    assert(params_view(r@) =~= video_layout_show_params());
    r
}

fn make_video_page_params() -> (r: Vec<EventParameter>)
    ensures
        params_view(r@) == video_page_params(),
{
    let mut r: Vec<EventParameter> = Vec::new();
    r.push(EventParameter::new("interfaceid", CoreDataType::Int));
    r.push(EventParameter::new("displayid", CoreDataType::Int));
    r.push(EventParameter::new("page", CoreDataType::Int));
    assert(params_view(r@) =~= video_page_params());
    r
}

fn make_video_show_loop_params() -> (r: Vec<EventParameter>)
    ensures
        params_view(r@) == video_show_loop_params(),
{
    let mut r: Vec<EventParameter> = Vec::new();
    r.push(EventParameter::new("interfaceid", CoreDataType::Int));
    r.push(EventParameter::new("layoutid", CoreDataType::Int));
    r.push(EventParameter::new("loopid", CoreDataType::Range));
    assert(params_view(r@) =~= video_show_loop_params());
    r
}

impl EventType {
    /// The name of this type in configuration files.
    pub fn name(self) -> (r: &'static str)
        ensures
            r@ == event_name(self),
    {
        match self {
            EventType::InputKey => {
                proof {
                    reveal_strlit("key");
                }
                "key"
            },
            EventType::InputJoystickButton => {
                proof {
                    reveal_strlit("joybutton");
                }
                "joybutton"
            },
            EventType::InputMouseButton => {
                proof {
                    reveal_strlit("mousebutton");
                }
                "mousebutton"
            },
            EventType::InputMouseMotion => {
                proof {
                    reveal_strlit("mousemotion");
                }
                "mousemotion"
            },
            EventType::InputMIDIKey => {
                proof {
                    reveal_strlit("midikey");
                }
                "midikey"
            },
            EventType::InputMIDIController => {
                proof {
                    reveal_strlit("midicontroller");
                }
                "midicontroller"
            },
            EventType::InputMIDIProgramChange => {
                proof {
                    reveal_strlit("midiprogramchange");
                }
                "midiprogramchange"
            },
            EventType::InputMIDIChannelPressure => {
                proof {
                    reveal_strlit("midichannelpressure");
                }
                "midichannelpressure"
            },
            EventType::InputMIDIPitchBend => {
                proof {
                    reveal_strlit("midipitchbend");
                }
                "midipitchbend"
            },
            EventType::InputMIDIPolyphonicPressure => {
                proof {
                    reveal_strlit("midipolyphonicpressure");
                }
                "midipolyphonicpressure"
            },
            EventType::InputMIDISystemExclusive => {
                proof {
                    reveal_strlit("midisysex");
                }
                "midisysex"
            },
            EventType::InputMIDITimeCodeQuarterFrame => {
                proof {
                    reveal_strlit("midimtcquarterframe");
                }
                "midimtcquarterframe"
            },
            EventType::InputMIDISongPosition => {
                proof {
                    reveal_strlit("midisongposition");
                }
                "midisongposition"
            },
            EventType::InputMIDISongSelect => {
                proof {
                    reveal_strlit("midisongselect");
                }
                "midisongselect"
            },
            EventType::InputMIDITuneRequest => {
                proof {
                    reveal_strlit("miditunerequest");
                }
                "miditunerequest"
            },
            EventType::InputMIDIActiveSensing => {
                proof {
                    reveal_strlit("midiactivesensing");
                }
                "midiactivesensing"
            },
            EventType::InputMIDIReset => {
                proof {
                    reveal_strlit("midireset");
                }
                "midireset"
            },
            EventType::InputMIDIClock => {
                proof {
                    reveal_strlit("midiclock");
                }
                "midiclock"
            },
            EventType::InputMIDIStartStop => {
                proof {
                    reveal_strlit("midistartstop");
                }
                "midistartstop"
            },
            EventType::EndRecord => {
                proof {
                    reveal_strlit("end-record");
                }
                "end-record"
            },
            EventType::LoopList => {
                proof {
                    reveal_strlit("loop-list");
                }
                "loop-list"
            },
            EventType::SceneMarker => {
                proof {
                    reveal_strlit("scene-marker");
                }
                "scene-marker"
            },
            EventType::TriggerSet => {
                proof {
                    reveal_strlit("trigger-set");
                }
                "trigger-set"
            },
            EventType::ALSAMixerControlSet => {
                proof {
                    reveal_strlit("alsa-mixer-control-set");
                }
                "alsa-mixer-control-set"
            },
            EventType::AddProcessor => {
                proof {
                    reveal_strlit("add-processor");
                }
                "add-processor"
            },
            EventType::DelProcessor => {
                proof {
                    reveal_strlit("del-processor");
                }
                "del-processor"
            },
            EventType::CleanupProcessor => {
                proof {
                    reveal_strlit("cleanup-processor");
                }
                "cleanup-processor"
            },
            EventType::LoopClicked => {
                proof {
                    reveal_strlit("loop-clicked");
                }
                "loop-clicked"
            },
            EventType::GoSub => {
                proof {
                    reveal_strlit("go-sub");
                }
                "go-sub"
            },
            EventType::StartSession => {
                proof {
                    reveal_strlit("start-freewheeling");
                }
                "start-freewheeling"
            },
            EventType::StartInterface => {
                proof {
                    reveal_strlit("start-interface");
                }
                "start-interface"
            },
            EventType::ExitSession => {
                proof {
                    reveal_strlit("exit-freewheeling");
                }
                "exit-freewheeling"
            },
            EventType::SlideMasterInVolume => {
                proof {
                    reveal_strlit("slide-master-in-volume");
                }
                "slide-master-in-volume"
            },
            EventType::SlideMasterOutVolume => {
                proof {
                    reveal_strlit("slide-master-out-volume");
                }
                "slide-master-out-volume"
            },
            EventType::SlideInVolume => {
                proof {
                    reveal_strlit("slide-in-volume");
                }
                "slide-in-volume"
            },
            EventType::SetMasterInVolume => {
                proof {
                    reveal_strlit("set-master-in-volume");
                }
                "set-master-in-volume"
            },
            EventType::SetMasterOutVolume => {
                proof {
                    reveal_strlit("set-master-out-volume");
                }
                "set-master-out-volume"
            },
            EventType::SetInVolume => {
                proof {
                    reveal_strlit("set-in-volume");
                }
                "set-in-volume"
            },
            EventType::ToggleInputRecord => {
                proof {
                    reveal_strlit("toggle-input-record");
                }
                "toggle-input-record"
            },
            EventType::SetMidiEchoPort => {
                proof {
                    reveal_strlit("set-midi-echo-port");
                }
                "set-midi-echo-port"
            },
            EventType::SetMidiEchoChannel => {
                proof {
                    reveal_strlit("set-midi-echo-channel");
                }
                "set-midi-echo-channel"
            },
            EventType::AdjustMidiTranspose => {
                proof {
                    reveal_strlit("adjust-midi-transpose");
                }
                "adjust-midi-transpose"
            },
            EventType::FluidSynthEnable => {
                proof {
                    reveal_strlit("fluidsynth-enable");
                }
                "fluidsynth-enable"
            },
            EventType::SetMidiTuning => {
                proof {
                    reveal_strlit("set-midi-tuning");
                }
                "set-midi-tuning"
            },
            EventType::SetTriggerVolume => {
                proof {
                    reveal_strlit("set-trigger-volume");
                }
                "set-trigger-volume"
            },
            EventType::SlideLoopAmp => {
                proof {
                    reveal_strlit("slide-loop-amplifier");
                }
                "slide-loop-amplifier"
            },
            EventType::SetLoopAmp => {
                proof {
                    reveal_strlit("set-loop-amplifier");
                }
                "set-loop-amplifier"
            },
            EventType::AdjustLoopAmp => {
                proof {
                    reveal_strlit("adjust-loop-amplifier");
                }
                "adjust-loop-amplifier"
            },
            EventType::TriggerLoop => {
                proof {
                    reveal_strlit("trigger-loop");
                }
                "trigger-loop"
            },
            EventType::MoveLoop => {
                proof {
                    reveal_strlit("move-loop");
                }
                "move-loop"
            },
            EventType::RenameLoop => {
                proof {
                    reveal_strlit("rename-loop");
                }
                "rename-loop"
            },
            EventType::EraseLoop => {
                proof {
                    reveal_strlit("erase-loop");
                }
                "erase-loop"
            },
            EventType::EraseAllLoops => {
                proof {
                    reveal_strlit("erase-all-loops");
                }
                "erase-all-loops"
            },
            EventType::EraseSelectedLoops => {
                proof {
                    reveal_strlit("erase-selected-loops");
                }
                "erase-selected-loops"
            },
            EventType::SlideLoopAmpStopAll => {
                proof {
                    reveal_strlit("slide-loop-amplifier-stop-all");
                }
                "slide-loop-amplifier-stop-all"
            },
            EventType::DeletePulse => {
                proof {
                    reveal_strlit("delete-pulse");
                }
                "delete-pulse"
            },
            EventType::SelectPulse => {
                proof {
                    reveal_strlit("select-pulse");
                }
                "select-pulse"
            },
            EventType::TapPulse => {
                proof {
                    reveal_strlit("tap-pulse");
                }
                "tap-pulse"
            },
            EventType::SwitchMetronome => {
                proof {
                    reveal_strlit("switch-metronome");
                }
                "switch-metronome"
            },
            EventType::SetSyncType => {
                proof {
                    reveal_strlit("set-sync-type");
                }
                "set-sync-type"
            },
            EventType::SetSyncSpeed => {
                proof {
                    reveal_strlit("set-sync-speed");
                }
                "set-sync-speed"
            },
            EventType::SetMidiSync => {
                proof {
                    reveal_strlit("set-midi-sync");
                }
                "set-midi-sync"
            },
            EventType::ToggleSelectLoop => {
                proof {
                    reveal_strlit("toggle-select-loop");
                }
                "toggle-select-loop"
            },
            EventType::SelectOnlyPlayingLoops => {
                proof {
                    reveal_strlit("select-only-playing-loops");
                }
                "select-only-playing-loops"
            },
            EventType::SelectAllLoops => {
                proof {
                    reveal_strlit("select-all-loops");
                }
                "select-all-loops"
            },
            EventType::TriggerSelectedLoops => {
                proof {
                    reveal_strlit("trigger-selected-loops");
                }
                "trigger-selected-loops"
            },
            EventType::SetSelectedLoopsTriggerVolume => {
                proof {
                    reveal_strlit("set-selected-loops-trigger-volume");
                }
                "set-selected-loops-trigger-volume"
            },
            EventType::AdjustSelectedLoopsAmp => {
                proof {
                    reveal_strlit("adjust-selected-loops-amp");
                }
                "adjust-selected-loops-amp"
            },
            EventType::InvertSelection => {
                proof {
                    reveal_strlit("invert-selection");
                }
                "invert-selection"
            },
            EventType::CreateSnapshot => {
                proof {
                    reveal_strlit("create-snapshot");
                }
                "create-snapshot"
            },
            EventType::RenameSnapshot => {
                proof {
                    reveal_strlit("rename-snapshot");
                }
                "rename-snapshot"
            },
            EventType::TriggerSnapshot => {
                proof {
                    reveal_strlit("trigger-snapshot");
                }
                "trigger-snapshot"
            },
            EventType::SwapSnapshots => {
                proof {
                    reveal_strlit("swap-snapshots");
                }
                "swap-snapshots"
            },
            EventType::BrowserMoveToItem => {
                proof {
                    reveal_strlit("browser-move-to-item");
                }
                "browser-move-to-item"
            },
            EventType::BrowserMoveToItemAbsolute => {
                proof {
                    reveal_strlit("browser-move-to-item-absolute");
                }
                "browser-move-to-item-absolute"
            },
            EventType::BrowserSelectItem => {
                proof {
                    reveal_strlit("browser-select-item");
                }
                "browser-select-item"
            },
            EventType::BrowserRenameItem => {
                proof {
                    reveal_strlit("browser-rename-item");
                }
                "browser-rename-item"
            },
            EventType::BrowserItemBrowsed => {
                proof {
                    reveal_strlit("browser-item-browsed");
                }
                "browser-item-browsed"
            },
            EventType::PatchBrowserMoveToBank => {
                proof {
                    reveal_strlit("patchbrowser-move-to-bank");
                }
                "patchbrowser-move-to-bank"
            },
            EventType::PatchBrowserMoveToBankByIndex => {
                proof {
                    reveal_strlit("patchbrowser-move-to-bank-by-index");
                }
                "patchbrowser-move-to-bank-by-index"
            },
            EventType::TransmitPlayingLoopsToDAW => {
                proof {
                    reveal_strlit("transmit-playing-loops-to-daw");
                }
                "transmit-playing-loops-to-daw"
            },
            EventType::SetVariable => {
                proof {
                    reveal_strlit("set-variable");
                }
                "set-variable"
            },
            EventType::ToggleVariable => {
                proof {
                    reveal_strlit("toggle-variable");
                }
                "toggle-variable"
            },
            EventType::SplitVariableMSBLSB => {
                proof {
                    reveal_strlit("split-variable-msb-lsb");
                }
                "split-variable-msb-lsb"
            },
            EventType::ParamSetGetAbsoluteParamIdx => {
                proof {
                    reveal_strlit("paramset-get-absolute-param-index");
                }
                "paramset-get-absolute-param-index"
            },
            EventType::ParamSetGetParam => {
                proof {
                    reveal_strlit("paramset-get-param");
                }
                "paramset-get-param"
            },
            EventType::ParamSetSetParam => {
                proof {
                    reveal_strlit("paramset-set-param");
                }
                "paramset-set-param"
            },
            EventType::LogFaderVolToLinear => {
                proof {
                    reveal_strlit("log-fader-to-linear");
                }
                "log-fader-to-linear"
            },
            EventType::VideoShowParamSetBank => {
                proof {
                    reveal_strlit("video-show-paramset-bank");
                }
                "video-show-paramset-bank"
            },
            EventType::VideoShowParamSetPage => {
                proof {
                    reveal_strlit("video-show-paramset-page");
                }
                "video-show-paramset-page"
            },
            EventType::VideoShowSnapshotPage => {
                proof {
                    reveal_strlit("video-show-snapshot-page");
                }
                "video-show-snapshot-page"
            },
            EventType::VideoShowLoop => {
                proof {
                    reveal_strlit("video-show-loop");
                }
                "video-show-loop"
            },
            EventType::VideoShowLayout => {
                proof {
                    reveal_strlit("video-show-layout");
                }
                "video-show-layout"
            },
            EventType::VideoSwitchInterface => {
                proof {
                    reveal_strlit("video-switch-interface");
                }
                "video-switch-interface"
            },
            EventType::VideoShowDisplay => {
                proof {
                    reveal_strlit("video-show-display");
                }
                "video-show-display"
            },
            EventType::VideoShowHelp => {
                proof {
                    reveal_strlit("video-show-help");
                }
                "video-show-help"
            },
            EventType::VideoFullScreen => {
                proof {
                    reveal_strlit("video-full-screen");
                }
                "video-full-screen"
            },
            EventType::ShowDebugInfo => {
                proof {
                    reveal_strlit("show-debug-info");
                }
                "show-debug-info"
            },
            EventType::ToggleDiskOutput => {
                proof {
                    reveal_strlit("toggle-disk-output");
                }
                "toggle-disk-output"
            },
            EventType::SetAutoLoopSaving => {
                proof {
                    reveal_strlit("set-auto-loop-saving");
                }
                "set-auto-loop-saving"
            },
            EventType::SaveLoop => {
                proof {
                    reveal_strlit("save-loop");
                }
                "save-loop"
            },
            EventType::SaveNewScene => {
                proof {
                    reveal_strlit("save-new-scene");
                }
                "save-new-scene"
            },
            EventType::SaveCurrentScene => {
                proof {
                    reveal_strlit("save-current-scene");
                }
                "save-current-scene"
            },
            EventType::SetLoadLoopId => {
                proof {
                    reveal_strlit("set-load-loop-id");
                }
                "set-load-loop-id"
            },
            EventType::SetDefaultLoopPlacement => {
                proof {
                    reveal_strlit("set-default-loop-placement");
                }
                "set-default-loop-placement"
            },
            _ => {
                proof {
                    reveal_strlit("");
                }
                ""
            },
        }
    }

    /// Whether events of this type are delivered on the slow path.
    pub fn is_slow(self) -> (r: bool)
        ensures
            r == event_is_slow(self),
    {
        match self {
            EventType::ALSAMixerControlSet => true,
            EventType::ExitSession => true,
            EventType::MoveLoop => true,
            EventType::RenameLoop => true,
            EventType::EraseLoop => true,
            EventType::EraseAllLoops => true,
            EventType::EraseSelectedLoops => true,
            EventType::DeletePulse => true,
            EventType::SelectPulse => true,
            EventType::ToggleSelectLoop => true,
            EventType::SelectOnlyPlayingLoops => true,
            EventType::SelectAllLoops => true,
            EventType::TriggerSelectedLoops => true,
            EventType::InvertSelection => true,
            EventType::CreateSnapshot => true,
            EventType::RenameSnapshot => true,
            EventType::TriggerSnapshot => true,
            EventType::SwapSnapshots => true,
            EventType::BrowserMoveToItem => true,
            EventType::BrowserMoveToItemAbsolute => true,
            EventType::BrowserSelectItem => true,
            EventType::BrowserRenameItem => true,
            EventType::PatchBrowserMoveToBank => true,
            EventType::PatchBrowserMoveToBankByIndex => true,
            EventType::TransmitPlayingLoopsToDAW => true,
            EventType::VideoShowSnapshotPage => true,
            EventType::VideoShowLoop => true,
            EventType::VideoShowLayout => true,
            EventType::VideoSwitchInterface => true,
            EventType::VideoShowDisplay => true,
            EventType::VideoShowHelp => true,
            EventType::VideoFullScreen => true,
            EventType::ShowDebugInfo => true,
            EventType::ToggleDiskOutput => true,
            EventType::SaveLoop => true,
            EventType::SaveNewScene => true,
            EventType::SaveCurrentScene => true,
            _ => false,
        }
    }

    /// The event type named `name`, if any.
    pub fn from_name(name: &str) -> (r: Option<EventType>)
        ensures
            r == event_named(name@),
    {
        if name.unicode_len() == 0 {
            return None;
        }
        if str_eq(name, "key") {
            return Some(EventType::InputKey);
        }
        if str_eq(name, "joybutton") {
            return Some(EventType::InputJoystickButton);
        }
        if str_eq(name, "mousebutton") {
            return Some(EventType::InputMouseButton);
        }
        if str_eq(name, "mousemotion") {
            return Some(EventType::InputMouseMotion);
        }
        if str_eq(name, "midikey") {
            return Some(EventType::InputMIDIKey);
        }
        if str_eq(name, "midicontroller") {
            return Some(EventType::InputMIDIController);
        }
        if str_eq(name, "midiprogramchange") {
            return Some(EventType::InputMIDIProgramChange);
        }
        if str_eq(name, "midichannelpressure") {
            return Some(EventType::InputMIDIChannelPressure);
        }
        if str_eq(name, "midipitchbend") {
            return Some(EventType::InputMIDIPitchBend);
        }
        if str_eq(name, "midipolyphonicpressure") {
            return Some(EventType::InputMIDIPolyphonicPressure);
        }
        if str_eq(name, "midisysex") {
            return Some(EventType::InputMIDISystemExclusive);
        }
        if str_eq(name, "midimtcquarterframe") {
            return Some(EventType::InputMIDITimeCodeQuarterFrame);
        }
        if str_eq(name, "midisongposition") {
            return Some(EventType::InputMIDISongPosition);
        }
        if str_eq(name, "midisongselect") {
            return Some(EventType::InputMIDISongSelect);
        }
        if str_eq(name, "miditunerequest") {
            return Some(EventType::InputMIDITuneRequest);
        }
        if str_eq(name, "midiactivesensing") {
            return Some(EventType::InputMIDIActiveSensing);
        }
        if str_eq(name, "midireset") {
            return Some(EventType::InputMIDIReset);
        }
        if str_eq(name, "midiclock") {
            return Some(EventType::InputMIDIClock);
        }
        if str_eq(name, "midistartstop") {
            return Some(EventType::InputMIDIStartStop);
        }
        if str_eq(name, "end-record") {
            return Some(EventType::EndRecord);
        }
        if str_eq(name, "loop-list") {
            return Some(EventType::LoopList);
        }
        if str_eq(name, "scene-marker") {
            return Some(EventType::SceneMarker);
        }
        if str_eq(name, "trigger-set") {
            return Some(EventType::TriggerSet);
        }
        if str_eq(name, "go-sub") {
            return Some(EventType::GoSub);
        }
        if str_eq(name, "loop-clicked") {
            return Some(EventType::LoopClicked);
        }
        if str_eq(name, "add-processor") {
            return Some(EventType::AddProcessor);
        }
        if str_eq(name, "del-processor") {
            return Some(EventType::DelProcessor);
        }
        if str_eq(name, "cleanup-processor") {
            return Some(EventType::CleanupProcessor);
        }
        if str_eq(name, "alsa-mixer-control-set") {
            return Some(EventType::ALSAMixerControlSet);
        }
        if str_eq(name, "browser-move-to-item") {
            return Some(EventType::BrowserMoveToItem);
        }
        if str_eq(name, "browser-move-to-item-absolute") {
            return Some(EventType::BrowserMoveToItemAbsolute);
        }
        if str_eq(name, "browser-select-item") {
            return Some(EventType::BrowserSelectItem);
        }
        if str_eq(name, "browser-rename-item") {
            return Some(EventType::BrowserRenameItem);
        }
        if str_eq(name, "browser-item-browsed") {
            return Some(EventType::BrowserItemBrowsed);
        }
        if str_eq(name, "patchbrowser-move-to-bank") {
            return Some(EventType::PatchBrowserMoveToBank);
        }
        if str_eq(name, "patchbrowser-move-to-bank-by-index") {
            return Some(EventType::PatchBrowserMoveToBankByIndex);
        }
        if str_eq(name, "start-freewheeling") {
            return Some(EventType::StartSession);
        }
        if str_eq(name, "start-interface") {
            return Some(EventType::StartInterface);
        }
        if str_eq(name, "exit-freewheeling") {
            return Some(EventType::ExitSession);
        }
        if str_eq(name, "fluidsynth-enable") {
            return Some(EventType::FluidSynthEnable);
        }
        if str_eq(name, "set-midi-tuning") {
            return Some(EventType::SetMidiTuning);
        }
        if str_eq(name, "video-show-loop") {
            return Some(EventType::VideoShowLoop);
        }
        if str_eq(name, "video-show-layout") {
            return Some(EventType::VideoShowLayout);
        }
        if str_eq(name, "video-show-snapshot-page") {
            return Some(EventType::VideoShowSnapshotPage);
        }
        if str_eq(name, "video-show-paramset-bank") {
            return Some(EventType::VideoShowParamSetBank);
        }
        if str_eq(name, "video-show-paramset-page") {
            return Some(EventType::VideoShowParamSetPage);
        }
        if str_eq(name, "video-switch-interface") {
            return Some(EventType::VideoSwitchInterface);
        }
        if str_eq(name, "video-show-display") {
            return Some(EventType::VideoShowDisplay);
        }
        if str_eq(name, "video-show-help") {
            return Some(EventType::VideoShowHelp);
        }
        if str_eq(name, "video-full-screen") {
            return Some(EventType::VideoFullScreen);
        }
        if str_eq(name, "show-debug-info") {
            return Some(EventType::ShowDebugInfo);
        }
        if str_eq(name, "slide-master-in-volume") {
            return Some(EventType::SlideMasterInVolume);
        }
        if str_eq(name, "slide-master-out-volume") {
            return Some(EventType::SlideMasterOutVolume);
        }
        if str_eq(name, "slide-in-volume") {
            return Some(EventType::SlideInVolume);
        }
        if str_eq(name, "set-master-in-volume") {
            return Some(EventType::SetMasterInVolume);
        }
        if str_eq(name, "set-master-out-volume") {
            return Some(EventType::SetMasterOutVolume);
        }
        if str_eq(name, "set-in-volume") {
            return Some(EventType::SetInVolume);
        }
        if str_eq(name, "toggle-input-record") {
            return Some(EventType::ToggleInputRecord);
        }
        if str_eq(name, "set-midi-echo-port") {
            return Some(EventType::SetMidiEchoPort);
        }
        if str_eq(name, "set-midi-echo-channel") {
            return Some(EventType::SetMidiEchoChannel);
        }
        if str_eq(name, "adjust-midi-transpose") {
            return Some(EventType::AdjustMidiTranspose);
        }
        if str_eq(name, "paramset-get-absolute-param-index") {
            return Some(EventType::ParamSetGetAbsoluteParamIdx);
        }
        if str_eq(name, "paramset-get-param") {
            return Some(EventType::ParamSetGetParam);
        }
        if str_eq(name, "paramset-set-param") {
            return Some(EventType::ParamSetSetParam);
        }
        if str_eq(name, "log-fader-to-linear") {
            return Some(EventType::LogFaderVolToLinear);
        }
        if str_eq(name, "set-trigger-volume") {
            return Some(EventType::SetTriggerVolume);
        }
        if str_eq(name, "slide-loop-amplifier") {
            return Some(EventType::SlideLoopAmp);
        }
        if str_eq(name, "set-loop-amplifier") {
            return Some(EventType::SetLoopAmp);
        }
        if str_eq(name, "adjust-loop-amplifier") {
            return Some(EventType::AdjustLoopAmp);
        }
        if str_eq(name, "rename-loop") {
            return Some(EventType::RenameLoop);
        }
        if str_eq(name, "erase-selected-loops") {
            return Some(EventType::EraseSelectedLoops);
        }
        if str_eq(name, "toggle-disk-output") {
            return Some(EventType::ToggleDiskOutput);
        }
        if str_eq(name, "set-auto-loop-saving") {
            return Some(EventType::SetAutoLoopSaving);
        }
        if str_eq(name, "save-new-scene") {
            return Some(EventType::SaveNewScene);
        }
        if str_eq(name, "save-current-scene") {
            return Some(EventType::SaveCurrentScene);
        }
        if str_eq(name, "set-load-loop-id") {
            return Some(EventType::SetLoadLoopId);
        }
        if str_eq(name, "create-snapshot") {
            return Some(EventType::CreateSnapshot);
        }
        if str_eq(name, "swap-snapshots") {
            return Some(EventType::SwapSnapshots);
        }
        if str_eq(name, "rename-snapshot") {
            return Some(EventType::RenameSnapshot);
        }
        if str_eq(name, "trigger-snapshot") {
            return Some(EventType::TriggerSnapshot);
        }
        if str_eq(name, "transmit-playing-loops-to-daw") {
            return Some(EventType::TransmitPlayingLoopsToDAW);
        }
        if str_eq(name, "toggle-select-loop") {
            return Some(EventType::ToggleSelectLoop);
        }
        if str_eq(name, "select-only-playing-loops") {
            return Some(EventType::SelectOnlyPlayingLoops);
        }
        if str_eq(name, "select-all-loops") {
            return Some(EventType::SelectAllLoops);
        }
        if str_eq(name, "trigger-selected-loops") {
            return Some(EventType::TriggerSelectedLoops);
        }
        if str_eq(name, "set-selected-loops-trigger-volume") {
            return Some(EventType::SetSelectedLoopsTriggerVolume);
        }
        if str_eq(name, "adjust-selected-loops-amp") {
            return Some(EventType::AdjustSelectedLoopsAmp);
        }
        if str_eq(name, "invert-selection") {
            return Some(EventType::InvertSelection);
        }
        if str_eq(name, "trigger-loop") {
            return Some(EventType::TriggerLoop);
        }
        if str_eq(name, "move-loop") {
            return Some(EventType::MoveLoop);
        }
        if str_eq(name, "erase-loop") {
            return Some(EventType::EraseLoop);
        }
        if str_eq(name, "erase-all-loops") {
            return Some(EventType::EraseAllLoops);
        }
        if str_eq(name, "save-loop") {
            return Some(EventType::SaveLoop);
        }
        if str_eq(name, "set-default-loop-placement") {
            return Some(EventType::SetDefaultLoopPlacement);
        }
        if str_eq(name, "select-pulse") {
            return Some(EventType::SelectPulse);
        }
        if str_eq(name, "delete-pulse") {
            return Some(EventType::DeletePulse);
        }
        if str_eq(name, "tap-pulse") {
            return Some(EventType::TapPulse);
        }
        if str_eq(name, "switch-metronome") {
            return Some(EventType::SwitchMetronome);
        }
        if str_eq(name, "set-sync-type") {
            return Some(EventType::SetSyncType);
        }
        if str_eq(name, "set-sync-speed") {
            return Some(EventType::SetSyncSpeed);
        }
        if str_eq(name, "set-midi-sync") {
            return Some(EventType::SetMidiSync);
        }
        if str_eq(name, "pulse-sync") {
            return Some(EventType::PulseSync);
        }
        if str_eq(name, "slide-loop-amplifier-stop-all") {
            return Some(EventType::SlideLoopAmpStopAll);
        }
        if str_eq(name, "set-variable") {
            return Some(EventType::SetVariable);
        }
        if str_eq(name, "toggle-variable") {
            return Some(EventType::ToggleVariable);
        }
        if str_eq(name, "split-variable-msb-lsb") {
            return Some(EventType::SplitVariableMSBLSB);
        }
        None
    }

    /// The parameters that events of this type carry.
    pub fn parameters(self) -> (r: Vec<EventParameter>)
        ensures
            params_view(r@) == event_parameters(self),
    {
        match self {
            EventType::InputKey => make_key_input_params(),
            EventType::InputJoystickButton => make_joystick_button_input_params(),
            EventType::InputMouseButton => make_mouse_button_input_params(),
            EventType::InputMouseMotion => make_mouse_motion_input_params(),
            EventType::InputMIDIController => make_midi_controller_input_params(),
            EventType::InputMIDIProgramChange => make_midi_program_change_input_params(),
            EventType::InputMIDIChannelPressure => make_midi_channel_pressure_input_params(),
            EventType::InputMIDIPitchBend => make_midi_pitch_bend_input_params(),
            EventType::InputMIDIPolyphonicPressure => make_midi_polyphonic_pressure_input_params(),
            EventType::InputMIDITimeCodeQuarterFrame | EventType::InputMIDISongPosition | EventType::InputMIDISongSelect => make_midi_value_input_params(),
            EventType::InputMIDIKey => make_midi_key_input_params(),
            EventType::GoSub => make_go_sub_params(),
            EventType::LoopClicked => make_loop_clicked_params(),
            EventType::ALSAMixerControlSet => make_alsa_mixer_control_set_params(),
            EventType::ParamSetGetAbsoluteParamIdx => make_paramset_abs_param_idx_params(),
            EventType::ParamSetGetParam => make_paramset_get_param_params(),
            EventType::ParamSetSetParam => make_paramset_set_param_params(),
            EventType::LogFaderVolToLinear => make_log_fader_to_linear_params(),
            EventType::FluidSynthEnable => make_enable_bool_params(),
            EventType::SetMidiTuning => make_midi_tuning_params(),
            EventType::SlideMasterInVolume => make_slide_master_volume_params(),
            EventType::SlideMasterOutVolume => make_slide_master_volume_params(),
            EventType::BrowserMoveToItem => make_browser_move_params(),
            EventType::BrowserMoveToItemAbsolute => make_browser_move_absolute_params(),
            EventType::BrowserSelectItem => make_browser_select_params(),
            EventType::BrowserRenameItem => make_browser_select_params(),
            EventType::BrowserItemBrowsed => make_browser_select_params(),
            EventType::PatchBrowserMoveToBank => make_patch_bank_move_params(),
            EventType::PatchBrowserMoveToBankByIndex => make_patch_bank_index_params(),
            EventType::StartInterface => make_start_interface_params(),
            EventType::VideoShowLoop => make_video_show_loop_params(),
            EventType::VideoShowLayout => make_video_layout_show_params(),
            EventType::VideoShowSnapshotPage => make_video_page_params(),
            EventType::VideoShowParamSetBank => make_video_bank_params(),
            EventType::VideoShowParamSetPage => make_video_page_params(),
            EventType::VideoSwitchInterface => make_start_interface_params(),
            EventType::VideoShowDisplay => make_video_display_show_params(),
            EventType::VideoShowHelp => make_video_help_params(),
            EventType::VideoFullScreen => make_video_fullscreen_params(),
            EventType::ShowDebugInfo => make_show_debug_info_params(),
            EventType::SlideInVolume => make_slide_in_volume_params(),
            EventType::SetMasterInVolume => make_set_master_volume_params(),
            EventType::SetMasterOutVolume => make_set_master_volume_params(),
            EventType::SetInVolume => make_set_in_volume_params(),
            EventType::ToggleInputRecord => make_toggle_input_record_params(),
            EventType::SetMidiEchoPort => make_set_midi_echo_port_params(),
            EventType::SetMidiEchoChannel => make_set_midi_echo_channel_params(),
            EventType::AdjustMidiTranspose => make_adjust_midi_transpose_params(),
            EventType::SetTriggerVolume => make_set_trigger_volume_params(),
            EventType::SlideLoopAmp => make_slide_loop_amp_params(),
            EventType::SetLoopAmp => make_set_loop_amp_params(),
            EventType::AdjustLoopAmp => make_adjust_loop_amp_params(),
            EventType::RenameLoop => make_rename_loop_params(),
            EventType::ToggleSelectLoop => make_toggle_select_loop_params(),
            EventType::SelectOnlyPlayingLoops => make_select_only_playing_params(),
            EventType::SelectAllLoops => make_select_all_loops_params(),
            EventType::TriggerSelectedLoops => make_trigger_selected_loops_params(),
            EventType::SetSelectedLoopsTriggerVolume => make_set_selected_loops_trigger_volume_params(),
            EventType::AdjustSelectedLoopsAmp => make_adjust_selected_loops_amp_params(),
            EventType::InvertSelection => make_setid_params(),
            EventType::CreateSnapshot => make_snapshot_id_params(),
            EventType::RenameSnapshot => make_snapshot_id_params(),
            EventType::TriggerSnapshot => make_snapshot_id_params(),
            EventType::SwapSnapshots => make_snapshot_swap_params(),
            EventType::TriggerLoop => make_trigger_loop_params(),
            EventType::MoveLoop => make_move_loop_params(),
            EventType::EraseLoop => make_loop_id_params(),
            EventType::EraseSelectedLoops => make_setid_params(),
            EventType::ToggleDiskOutput => Vec::new(),
            EventType::SetAutoLoopSaving => make_save_bool_params(),
            EventType::SaveLoop => make_loop_id_params(),
            EventType::SaveNewScene => Vec::new(),
            EventType::SaveCurrentScene => Vec::new(),
            EventType::SetLoadLoopId => make_loop_id_params(),
            EventType::SetDefaultLoopPlacement => make_loop_range_params(),
            EventType::SelectPulse => make_pulse_params(),
            EventType::DeletePulse => make_pulse_params(),
            EventType::TapPulse => make_tap_pulse_params(),
            EventType::SwitchMetronome => make_switch_metronome_params(),
            EventType::SetSyncType => make_set_sync_type_params(),
            EventType::SetSyncSpeed => make_set_sync_speed_params(),
            EventType::SetMidiSync => make_set_midi_sync_params(),
            EventType::PulseSync => Vec::new(),
            EventType::SlideLoopAmpStopAll => Vec::new(),
            EventType::TransmitPlayingLoopsToDAW => Vec::new(),
            EventType::SetVariable => make_set_variable_params(),
            EventType::ToggleVariable => make_toggle_variable_params(),
            EventType::SplitVariableMSBLSB => make_split_variable_params(),
            EventType::InputMIDIClock => make_midi_clock_input_params(),
            EventType::InputMIDIStartStop => make_midi_start_stop_input_params(),
            EventType::InputMIDITuneRequest => Vec::new(),
            EventType::InputMIDIActiveSensing => Vec::new(),
            EventType::InputMIDIReset => Vec::new(),
            _ => Vec::new(),
        }
    }
}

/// Something that produces events.
pub trait EventProducer {
    fn producer_name(&self) -> &str {
        "unknown"
    }
}

impl EventProducer for () {
}

/// Something that is handed the events it listens for, with who produced
/// them.
pub trait EventListener {
    fn receive_event(&mut self, ev: &Event, from: &dyn EventProducer);
}

/// What the names in configuration files spell.
proof fn lemma_event_literals()
    ensures
        "key"@ == seq!['k', 'e', 'y'],
        "joybutton"@ == seq!['j', 'o', 'y', 'b', 'u', 't', 't', 'o', 'n'],
        "mousebutton"@ == seq!['m', 'o', 'u', 's', 'e', 'b', 'u', 't', 't', 'o', 'n'],
        "mousemotion"@ == seq!['m', 'o', 'u', 's', 'e', 'm', 'o', 't', 'i', 'o', 'n'],
        "midikey"@ == seq!['m', 'i', 'd', 'i', 'k', 'e', 'y'],
        "midicontroller"@ == seq!['m', 'i', 'd', 'i', 'c', 'o', 'n', 't', 'r', 'o', 'l', 'l', 'e', 'r'],
        "midiprogramchange"@ == seq!['m', 'i', 'd', 'i', 'p', 'r', 'o', 'g', 'r', 'a', 'm', 'c', 'h', 'a', 'n', 'g', 'e'],
        "midichannelpressure"@ == seq!['m', 'i', 'd', 'i', 'c', 'h', 'a', 'n', 'n', 'e', 'l', 'p', 'r', 'e', 's', 's', 'u', 'r', 'e'],
        "midipitchbend"@ == seq!['m', 'i', 'd', 'i', 'p', 'i', 't', 'c', 'h', 'b', 'e', 'n', 'd'],
        "midipolyphonicpressure"@ == seq!['m', 'i', 'd', 'i', 'p', 'o', 'l', 'y', 'p', 'h', 'o', 'n', 'i', 'c', 'p', 'r', 'e', 's', 's', 'u', 'r', 'e'],
        "midisysex"@ == seq!['m', 'i', 'd', 'i', 's', 'y', 's', 'e', 'x'],
        "midimtcquarterframe"@ == seq!['m', 'i', 'd', 'i', 'm', 't', 'c', 'q', 'u', 'a', 'r', 't', 'e', 'r', 'f', 'r', 'a', 'm', 'e'],
        "midisongposition"@ == seq!['m', 'i', 'd', 'i', 's', 'o', 'n', 'g', 'p', 'o', 's', 'i', 't', 'i', 'o', 'n'],
        "midisongselect"@ == seq!['m', 'i', 'd', 'i', 's', 'o', 'n', 'g', 's', 'e', 'l', 'e', 'c', 't'],
        "miditunerequest"@ == seq!['m', 'i', 'd', 'i', 't', 'u', 'n', 'e', 'r', 'e', 'q', 'u', 'e', 's', 't'],
        "midiactivesensing"@ == seq!['m', 'i', 'd', 'i', 'a', 'c', 't', 'i', 'v', 'e', 's', 'e', 'n', 's', 'i', 'n', 'g'],
        "midireset"@ == seq!['m', 'i', 'd', 'i', 'r', 'e', 's', 'e', 't'],
        "midiclock"@ == seq!['m', 'i', 'd', 'i', 'c', 'l', 'o', 'c', 'k'],
        "midistartstop"@ == seq!['m', 'i', 'd', 'i', 's', 't', 'a', 'r', 't', 's', 't', 'o', 'p'],
        "end-record"@ == seq!['e', 'n', 'd', '-', 'r', 'e', 'c', 'o', 'r', 'd'],
        "loop-list"@ == seq!['l', 'o', 'o', 'p', '-', 'l', 'i', 's', 't'],
        "scene-marker"@ == seq!['s', 'c', 'e', 'n', 'e', '-', 'm', 'a', 'r', 'k', 'e', 'r'],
        "trigger-set"@ == seq!['t', 'r', 'i', 'g', 'g', 'e', 'r', '-', 's', 'e', 't'],
        "go-sub"@ == seq!['g', 'o', '-', 's', 'u', 'b'],
        "loop-clicked"@ == seq!['l', 'o', 'o', 'p', '-', 'c', 'l', 'i', 'c', 'k', 'e', 'd'],
        "add-processor"@ == seq!['a', 'd', 'd', '-', 'p', 'r', 'o', 'c', 'e', 's', 's', 'o', 'r'],
        "del-processor"@ == seq!['d', 'e', 'l', '-', 'p', 'r', 'o', 'c', 'e', 's', 's', 'o', 'r'],
        "cleanup-processor"@ == seq!['c', 'l', 'e', 'a', 'n', 'u', 'p', '-', 'p', 'r', 'o', 'c', 'e', 's', 's', 'o', 'r'],
        "alsa-mixer-control-set"@ == seq!['a', 'l', 's', 'a', '-', 'm', 'i', 'x', 'e', 'r', '-', 'c', 'o', 'n', 't', 'r', 'o', 'l', '-', 's', 'e', 't'],
        "browser-move-to-item"@ == seq!['b', 'r', 'o', 'w', 's', 'e', 'r', '-', 'm', 'o', 'v', 'e', '-', 't', 'o', '-', 'i', 't', 'e', 'm'],
        "browser-move-to-item-absolute"@ == seq!['b', 'r', 'o', 'w', 's', 'e', 'r', '-', 'm', 'o', 'v', 'e', '-', 't', 'o', '-', 'i', 't', 'e', 'm', '-', 'a', 'b', 's', 'o', 'l', 'u', 't', 'e'],
        "browser-select-item"@ == seq!['b', 'r', 'o', 'w', 's', 'e', 'r', '-', 's', 'e', 'l', 'e', 'c', 't', '-', 'i', 't', 'e', 'm'],
        "browser-rename-item"@ == seq!['b', 'r', 'o', 'w', 's', 'e', 'r', '-', 'r', 'e', 'n', 'a', 'm', 'e', '-', 'i', 't', 'e', 'm'],
        "browser-item-browsed"@ == seq!['b', 'r', 'o', 'w', 's', 'e', 'r', '-', 'i', 't', 'e', 'm', '-', 'b', 'r', 'o', 'w', 's', 'e', 'd'],
        "patchbrowser-move-to-bank"@ == seq!['p', 'a', 't', 'c', 'h', 'b', 'r', 'o', 'w', 's', 'e', 'r', '-', 'm', 'o', 'v', 'e', '-', 't', 'o', '-', 'b', 'a', 'n', 'k'],
        "patchbrowser-move-to-bank-by-index"@ == seq!['p', 'a', 't', 'c', 'h', 'b', 'r', 'o', 'w', 's', 'e', 'r', '-', 'm', 'o', 'v', 'e', '-', 't', 'o', '-', 'b', 'a', 'n', 'k', '-', 'b', 'y', '-', 'i', 'n', 'd', 'e', 'x'],
        "start-freewheeling"@ == seq!['s', 't', 'a', 'r', 't', '-', 'f', 'r', 'e', 'e', 'w', 'h', 'e', 'e', 'l', 'i', 'n', 'g'],
        "start-interface"@ == seq!['s', 't', 'a', 'r', 't', '-', 'i', 'n', 't', 'e', 'r', 'f', 'a', 'c', 'e'],
        "exit-freewheeling"@ == seq!['e', 'x', 'i', 't', '-', 'f', 'r', 'e', 'e', 'w', 'h', 'e', 'e', 'l', 'i', 'n', 'g'],
        "fluidsynth-enable"@ == seq!['f', 'l', 'u', 'i', 'd', 's', 'y', 'n', 't', 'h', '-', 'e', 'n', 'a', 'b', 'l', 'e'],
        "set-midi-tuning"@ == seq!['s', 'e', 't', '-', 'm', 'i', 'd', 'i', '-', 't', 'u', 'n', 'i', 'n', 'g'],
        "video-show-loop"@ == seq!['v', 'i', 'd', 'e', 'o', '-', 's', 'h', 'o', 'w', '-', 'l', 'o', 'o', 'p'],
        "video-show-layout"@ == seq!['v', 'i', 'd', 'e', 'o', '-', 's', 'h', 'o', 'w', '-', 'l', 'a', 'y', 'o', 'u', 't'],
        "video-show-snapshot-page"@ == seq!['v', 'i', 'd', 'e', 'o', '-', 's', 'h', 'o', 'w', '-', 's', 'n', 'a', 'p', 's', 'h', 'o', 't', '-', 'p', 'a', 'g', 'e'],
        "video-show-paramset-bank"@ == seq!['v', 'i', 'd', 'e', 'o', '-', 's', 'h', 'o', 'w', '-', 'p', 'a', 'r', 'a', 'm', 's', 'e', 't', '-', 'b', 'a', 'n', 'k'],
        "video-show-paramset-page"@ == seq!['v', 'i', 'd', 'e', 'o', '-', 's', 'h', 'o', 'w', '-', 'p', 'a', 'r', 'a', 'm', 's', 'e', 't', '-', 'p', 'a', 'g', 'e'],
        "video-switch-interface"@ == seq!['v', 'i', 'd', 'e', 'o', '-', 's', 'w', 'i', 't', 'c', 'h', '-', 'i', 'n', 't', 'e', 'r', 'f', 'a', 'c', 'e'],
        "video-show-display"@ == seq!['v', 'i', 'd', 'e', 'o', '-', 's', 'h', 'o', 'w', '-', 'd', 'i', 's', 'p', 'l', 'a', 'y'],
        "video-show-help"@ == seq!['v', 'i', 'd', 'e', 'o', '-', 's', 'h', 'o', 'w', '-', 'h', 'e', 'l', 'p'],
        "video-full-screen"@ == seq!['v', 'i', 'd', 'e', 'o', '-', 'f', 'u', 'l', 'l', '-', 's', 'c', 'r', 'e', 'e', 'n'],
        "show-debug-info"@ == seq!['s', 'h', 'o', 'w', '-', 'd', 'e', 'b', 'u', 'g', '-', 'i', 'n', 'f', 'o'],
        "slide-master-in-volume"@ == seq!['s', 'l', 'i', 'd', 'e', '-', 'm', 'a', 's', 't', 'e', 'r', '-', 'i', 'n', '-', 'v', 'o', 'l', 'u', 'm', 'e'],
        "slide-master-out-volume"@ == seq!['s', 'l', 'i', 'd', 'e', '-', 'm', 'a', 's', 't', 'e', 'r', '-', 'o', 'u', 't', '-', 'v', 'o', 'l', 'u', 'm', 'e'],
        "slide-in-volume"@ == seq!['s', 'l', 'i', 'd', 'e', '-', 'i', 'n', '-', 'v', 'o', 'l', 'u', 'm', 'e'],
        "set-master-in-volume"@ == seq!['s', 'e', 't', '-', 'm', 'a', 's', 't', 'e', 'r', '-', 'i', 'n', '-', 'v', 'o', 'l', 'u', 'm', 'e'],
        "set-master-out-volume"@ == seq!['s', 'e', 't', '-', 'm', 'a', 's', 't', 'e', 'r', '-', 'o', 'u', 't', '-', 'v', 'o', 'l', 'u', 'm', 'e'],
        "set-in-volume"@ == seq!['s', 'e', 't', '-', 'i', 'n', '-', 'v', 'o', 'l', 'u', 'm', 'e'],
        "toggle-input-record"@ == seq!['t', 'o', 'g', 'g', 'l', 'e', '-', 'i', 'n', 'p', 'u', 't', '-', 'r', 'e', 'c', 'o', 'r', 'd'],
        "set-midi-echo-port"@ == seq!['s', 'e', 't', '-', 'm', 'i', 'd', 'i', '-', 'e', 'c', 'h', 'o', '-', 'p', 'o', 'r', 't'],
        "set-midi-echo-channel"@ == seq!['s', 'e', 't', '-', 'm', 'i', 'd', 'i', '-', 'e', 'c', 'h', 'o', '-', 'c', 'h', 'a', 'n', 'n', 'e', 'l'],
        "adjust-midi-transpose"@ == seq!['a', 'd', 'j', 'u', 's', 't', '-', 'm', 'i', 'd', 'i', '-', 't', 'r', 'a', 'n', 's', 'p', 'o', 's', 'e'],
        "paramset-get-absolute-param-index"@ == seq!['p', 'a', 'r', 'a', 'm', 's', 'e', 't', '-', 'g', 'e', 't', '-', 'a', 'b', 's', 'o', 'l', 'u', 't', 'e', '-', 'p', 'a', 'r', 'a', 'm', '-', 'i', 'n', 'd', 'e', 'x'],
        "paramset-get-param"@ == seq!['p', 'a', 'r', 'a', 'm', 's', 'e', 't', '-', 'g', 'e', 't', '-', 'p', 'a', 'r', 'a', 'm'],
        "paramset-set-param"@ == seq!['p', 'a', 'r', 'a', 'm', 's', 'e', 't', '-', 's', 'e', 't', '-', 'p', 'a', 'r', 'a', 'm'],
        "log-fader-to-linear"@ == seq!['l', 'o', 'g', '-', 'f', 'a', 'd', 'e', 'r', '-', 't', 'o', '-', 'l', 'i', 'n', 'e', 'a', 'r'],
        "set-trigger-volume"@ == seq!['s', 'e', 't', '-', 't', 'r', 'i', 'g', 'g', 'e', 'r', '-', 'v', 'o', 'l', 'u', 'm', 'e'],
        "slide-loop-amplifier"@ == seq!['s', 'l', 'i', 'd', 'e', '-', 'l', 'o', 'o', 'p', '-', 'a', 'm', 'p', 'l', 'i', 'f', 'i', 'e', 'r'],
        "set-loop-amplifier"@ == seq!['s', 'e', 't', '-', 'l', 'o', 'o', 'p', '-', 'a', 'm', 'p', 'l', 'i', 'f', 'i', 'e', 'r'],
        "adjust-loop-amplifier"@ == seq!['a', 'd', 'j', 'u', 's', 't', '-', 'l', 'o', 'o', 'p', '-', 'a', 'm', 'p', 'l', 'i', 'f', 'i', 'e', 'r'],
        "rename-loop"@ == seq!['r', 'e', 'n', 'a', 'm', 'e', '-', 'l', 'o', 'o', 'p'],
        "erase-selected-loops"@ == seq!['e', 'r', 'a', 's', 'e', '-', 's', 'e', 'l', 'e', 'c', 't', 'e', 'd', '-', 'l', 'o', 'o', 'p', 's'],
        "toggle-disk-output"@ == seq!['t', 'o', 'g', 'g', 'l', 'e', '-', 'd', 'i', 's', 'k', '-', 'o', 'u', 't', 'p', 'u', 't'],
        "set-auto-loop-saving"@ == seq!['s', 'e', 't', '-', 'a', 'u', 't', 'o', '-', 'l', 'o', 'o', 'p', '-', 's', 'a', 'v', 'i', 'n', 'g'],
        "save-new-scene"@ == seq!['s', 'a', 'v', 'e', '-', 'n', 'e', 'w', '-', 's', 'c', 'e', 'n', 'e'],
        "save-current-scene"@ == seq!['s', 'a', 'v', 'e', '-', 'c', 'u', 'r', 'r', 'e', 'n', 't', '-', 's', 'c', 'e', 'n', 'e'],
        "set-load-loop-id"@ == seq!['s', 'e', 't', '-', 'l', 'o', 'a', 'd', '-', 'l', 'o', 'o', 'p', '-', 'i', 'd'],
        "create-snapshot"@ == seq!['c', 'r', 'e', 'a', 't', 'e', '-', 's', 'n', 'a', 'p', 's', 'h', 'o', 't'],
        "swap-snapshots"@ == seq!['s', 'w', 'a', 'p', '-', 's', 'n', 'a', 'p', 's', 'h', 'o', 't', 's'],
        "rename-snapshot"@ == seq!['r', 'e', 'n', 'a', 'm', 'e', '-', 's', 'n', 'a', 'p', 's', 'h', 'o', 't'],
        "trigger-snapshot"@ == seq!['t', 'r', 'i', 'g', 'g', 'e', 'r', '-', 's', 'n', 'a', 'p', 's', 'h', 'o', 't'],
        "transmit-playing-loops-to-daw"@ == seq!['t', 'r', 'a', 'n', 's', 'm', 'i', 't', '-', 'p', 'l', 'a', 'y', 'i', 'n', 'g', '-', 'l', 'o', 'o', 'p', 's', '-', 't', 'o', '-', 'd', 'a', 'w'],
        "toggle-select-loop"@ == seq!['t', 'o', 'g', 'g', 'l', 'e', '-', 's', 'e', 'l', 'e', 'c', 't', '-', 'l', 'o', 'o', 'p'],
        "select-only-playing-loops"@ == seq!['s', 'e', 'l', 'e', 'c', 't', '-', 'o', 'n', 'l', 'y', '-', 'p', 'l', 'a', 'y', 'i', 'n', 'g', '-', 'l', 'o', 'o', 'p', 's'],
        "select-all-loops"@ == seq!['s', 'e', 'l', 'e', 'c', 't', '-', 'a', 'l', 'l', '-', 'l', 'o', 'o', 'p', 's'],
        "trigger-selected-loops"@ == seq!['t', 'r', 'i', 'g', 'g', 'e', 'r', '-', 's', 'e', 'l', 'e', 'c', 't', 'e', 'd', '-', 'l', 'o', 'o', 'p', 's'],
        "set-selected-loops-trigger-volume"@ == seq!['s', 'e', 't', '-', 's', 'e', 'l', 'e', 'c', 't', 'e', 'd', '-', 'l', 'o', 'o', 'p', 's', '-', 't', 'r', 'i', 'g', 'g', 'e', 'r', '-', 'v', 'o', 'l', 'u', 'm', 'e'],
        "adjust-selected-loops-amp"@ == seq!['a', 'd', 'j', 'u', 's', 't', '-', 's', 'e', 'l', 'e', 'c', 't', 'e', 'd', '-', 'l', 'o', 'o', 'p', 's', '-', 'a', 'm', 'p'],
        "invert-selection"@ == seq!['i', 'n', 'v', 'e', 'r', 't', '-', 's', 'e', 'l', 'e', 'c', 't', 'i', 'o', 'n'],
        "trigger-loop"@ == seq!['t', 'r', 'i', 'g', 'g', 'e', 'r', '-', 'l', 'o', 'o', 'p'],
        "move-loop"@ == seq!['m', 'o', 'v', 'e', '-', 'l', 'o', 'o', 'p'],
        "erase-loop"@ == seq!['e', 'r', 'a', 's', 'e', '-', 'l', 'o', 'o', 'p'],
        "erase-all-loops"@ == seq!['e', 'r', 'a', 's', 'e', '-', 'a', 'l', 'l', '-', 'l', 'o', 'o', 'p', 's'],
        "save-loop"@ == seq!['s', 'a', 'v', 'e', '-', 'l', 'o', 'o', 'p'],
        "set-default-loop-placement"@ == seq!['s', 'e', 't', '-', 'd', 'e', 'f', 'a', 'u', 'l', 't', '-', 'l', 'o', 'o', 'p', '-', 'p', 'l', 'a', 'c', 'e', 'm', 'e', 'n', 't'],
        "select-pulse"@ == seq!['s', 'e', 'l', 'e', 'c', 't', '-', 'p', 'u', 'l', 's', 'e'],
        "delete-pulse"@ == seq!['d', 'e', 'l', 'e', 't', 'e', '-', 'p', 'u', 'l', 's', 'e'],
        "tap-pulse"@ == seq!['t', 'a', 'p', '-', 'p', 'u', 'l', 's', 'e'],
        "switch-metronome"@ == seq!['s', 'w', 'i', 't', 'c', 'h', '-', 'm', 'e', 't', 'r', 'o', 'n', 'o', 'm', 'e'],
        "set-sync-type"@ == seq!['s', 'e', 't', '-', 's', 'y', 'n', 'c', '-', 't', 'y', 'p', 'e'],
        "set-sync-speed"@ == seq!['s', 'e', 't', '-', 's', 'y', 'n', 'c', '-', 's', 'p', 'e', 'e', 'd'],
        "set-midi-sync"@ == seq!['s', 'e', 't', '-', 'm', 'i', 'd', 'i', '-', 's', 'y', 'n', 'c'],
        "pulse-sync"@ == seq!['p', 'u', 'l', 's', 'e', '-', 's', 'y', 'n', 'c'],
        "slide-loop-amplifier-stop-all"@ == seq!['s', 'l', 'i', 'd', 'e', '-', 'l', 'o', 'o', 'p', '-', 'a', 'm', 'p', 'l', 'i', 'f', 'i', 'e', 'r', '-', 's', 't', 'o', 'p', '-', 'a', 'l', 'l'],
        "set-variable"@ == seq!['s', 'e', 't', '-', 'v', 'a', 'r', 'i', 'a', 'b', 'l', 'e'],
        "toggle-variable"@ == seq!['t', 'o', 'g', 'g', 'l', 'e', '-', 'v', 'a', 'r', 'i', 'a', 'b', 'l', 'e'],
        "split-variable-msb-lsb"@ == seq!['s', 'p', 'l', 'i', 't', '-', 'v', 'a', 'r', 'i', 'a', 'b', 'l', 'e', '-', 'm', 's', 'b', '-', 'l', 's', 'b'],
{
    reveal_strlit("key");
    reveal_strlit("joybutton");
    reveal_strlit("mousebutton");
    reveal_strlit("mousemotion");
    reveal_strlit("midikey");
    reveal_strlit("midicontroller");
    reveal_strlit("midiprogramchange");
    reveal_strlit("midichannelpressure");
    reveal_strlit("midipitchbend");
    reveal_strlit("midipolyphonicpressure");
    reveal_strlit("midisysex");
    reveal_strlit("midimtcquarterframe");
    reveal_strlit("midisongposition");
    reveal_strlit("midisongselect");
    reveal_strlit("miditunerequest");
    reveal_strlit("midiactivesensing");
    reveal_strlit("midireset");
    reveal_strlit("midiclock");
    reveal_strlit("midistartstop");
    reveal_strlit("end-record");
    reveal_strlit("loop-list");
    reveal_strlit("scene-marker");
    reveal_strlit("trigger-set");
    reveal_strlit("go-sub");
    reveal_strlit("loop-clicked");
    reveal_strlit("add-processor");
    reveal_strlit("del-processor");
    reveal_strlit("cleanup-processor");
    reveal_strlit("alsa-mixer-control-set");
    reveal_strlit("browser-move-to-item");
    reveal_strlit("browser-move-to-item-absolute");
    reveal_strlit("browser-select-item");
    reveal_strlit("browser-rename-item");
    reveal_strlit("browser-item-browsed");
    reveal_strlit("patchbrowser-move-to-bank");
    reveal_strlit("patchbrowser-move-to-bank-by-index");
    reveal_strlit("start-freewheeling");
    reveal_strlit("start-interface");
    reveal_strlit("exit-freewheeling");
    reveal_strlit("fluidsynth-enable");
    reveal_strlit("set-midi-tuning");
    reveal_strlit("video-show-loop");
    reveal_strlit("video-show-layout");
    reveal_strlit("video-show-snapshot-page");
    reveal_strlit("video-show-paramset-bank");
    reveal_strlit("video-show-paramset-page");
    reveal_strlit("video-switch-interface");
    reveal_strlit("video-show-display");
    reveal_strlit("video-show-help");
    reveal_strlit("video-full-screen");
    reveal_strlit("show-debug-info");
    reveal_strlit("slide-master-in-volume");
    reveal_strlit("slide-master-out-volume");
    reveal_strlit("slide-in-volume");
    reveal_strlit("set-master-in-volume");
    reveal_strlit("set-master-out-volume");
    reveal_strlit("set-in-volume");
    reveal_strlit("toggle-input-record");
    reveal_strlit("set-midi-echo-port");
    reveal_strlit("set-midi-echo-channel");
    reveal_strlit("adjust-midi-transpose");
    reveal_strlit("paramset-get-absolute-param-index");
    reveal_strlit("paramset-get-param");
    reveal_strlit("paramset-set-param");
    reveal_strlit("log-fader-to-linear");
    reveal_strlit("set-trigger-volume");
    reveal_strlit("slide-loop-amplifier");
    reveal_strlit("set-loop-amplifier");
    reveal_strlit("adjust-loop-amplifier");
    reveal_strlit("rename-loop");
    reveal_strlit("erase-selected-loops");
    reveal_strlit("toggle-disk-output");
    reveal_strlit("set-auto-loop-saving");
    reveal_strlit("save-new-scene");
    reveal_strlit("save-current-scene");
    reveal_strlit("set-load-loop-id");
    reveal_strlit("create-snapshot");
    reveal_strlit("swap-snapshots");
    reveal_strlit("rename-snapshot");
    reveal_strlit("trigger-snapshot");
    reveal_strlit("transmit-playing-loops-to-daw");
    reveal_strlit("toggle-select-loop");
    reveal_strlit("select-only-playing-loops");
    reveal_strlit("select-all-loops");
    reveal_strlit("trigger-selected-loops");
    reveal_strlit("set-selected-loops-trigger-volume");
    reveal_strlit("adjust-selected-loops-amp");
    reveal_strlit("invert-selection");
    reveal_strlit("trigger-loop");
    reveal_strlit("move-loop");
    reveal_strlit("erase-loop");
    reveal_strlit("erase-all-loops");
    reveal_strlit("save-loop");
    reveal_strlit("set-default-loop-placement");
    reveal_strlit("select-pulse");
    reveal_strlit("delete-pulse");
    reveal_strlit("tap-pulse");
    reveal_strlit("switch-metronome");
    reveal_strlit("set-sync-type");
    reveal_strlit("set-sync-speed");
    reveal_strlit("set-midi-sync");
    reveal_strlit("pulse-sync");
    reveal_strlit("slide-loop-amplifier-stop-all");
    reveal_strlit("set-variable");
    reveal_strlit("toggle-variable");
    reveal_strlit("split-variable-msb-lsb");
}

/// Law: the empty name names no event type, and `pulse-sync` names the
/// pulse's synchronisation event.
pub proof fn law_event_name_edges()
    ensures
        event_named(Seq::<char>::empty()) == None::<EventType>,
        event_named("pulse-sync"@) == Some(EventType::PulseSync),
{
    lemma_event_literals();
    reveal_strlit("pulse-sync");
}

/// Law: every event type that has a name is found again by that name.
#[verifier::rlimit(100)]
pub proof fn law_event_name_round_trip(t: EventType)
    requires
        event_name(t).len() > 0,
    ensures
        event_named(event_name(t)) == Some(t),
{
    lemma_event_literals();
    match t {
        EventType::InputKey => {},
        EventType::InputJoystickButton => {},
        EventType::InputMouseButton => {},
        EventType::InputMouseMotion => {},
        EventType::InputMIDIKey => {},
        EventType::InputMIDIController => {},
        EventType::InputMIDIProgramChange => {},
        EventType::InputMIDIChannelPressure => {},
        EventType::InputMIDIPitchBend => {},
        EventType::InputMIDIPolyphonicPressure => {},
        EventType::InputMIDISystemExclusive => {},
        EventType::InputMIDITimeCodeQuarterFrame => {},
        EventType::InputMIDISongPosition => {},
        EventType::InputMIDISongSelect => {},
        EventType::InputMIDITuneRequest => {},
        EventType::InputMIDIActiveSensing => {},
        EventType::InputMIDIReset => {},
        EventType::InputMIDIClock => {},
        EventType::InputMIDIStartStop => {},
        EventType::EndRecord => {},
        EventType::LoopList => {},
        EventType::SceneMarker => {},
        EventType::TriggerSet => {},
        EventType::ALSAMixerControlSet => {},
        EventType::AddProcessor => {},
        EventType::DelProcessor => {},
        EventType::CleanupProcessor => {},
        EventType::LoopClicked => {},
        EventType::GoSub => {},
        EventType::StartSession => {},
        EventType::StartInterface => {},
        EventType::ExitSession => {},
        EventType::SlideMasterInVolume => {},
        EventType::SlideMasterOutVolume => {},
        EventType::SlideInVolume => {},
        EventType::SetMasterInVolume => {},
        EventType::SetMasterOutVolume => {},
        EventType::SetInVolume => {},
        EventType::ToggleInputRecord => {},
        EventType::SetMidiEchoPort => {},
        EventType::SetMidiEchoChannel => {},
        EventType::AdjustMidiTranspose => {},
        EventType::FluidSynthEnable => {},
        EventType::SetMidiTuning => {},
        EventType::SetTriggerVolume => {},
        EventType::SlideLoopAmp => {},
        EventType::SetLoopAmp => {},
        EventType::AdjustLoopAmp => {},
        EventType::TriggerLoop => {},
        EventType::MoveLoop => {},
        EventType::RenameLoop => {},
        EventType::EraseLoop => {},
        EventType::EraseAllLoops => {},
        EventType::EraseSelectedLoops => {},
        EventType::SlideLoopAmpStopAll => {},
        EventType::DeletePulse => {},
        EventType::SelectPulse => {},
        EventType::TapPulse => {},
        EventType::SwitchMetronome => {},
        EventType::SetSyncType => {},
        EventType::SetSyncSpeed => {},
        EventType::SetMidiSync => {},
        EventType::ToggleSelectLoop => {},
        EventType::SelectOnlyPlayingLoops => {},
        EventType::SelectAllLoops => {},
        EventType::TriggerSelectedLoops => {},
        EventType::SetSelectedLoopsTriggerVolume => {},
        EventType::AdjustSelectedLoopsAmp => {},
        EventType::InvertSelection => {},
        EventType::CreateSnapshot => {},
        EventType::RenameSnapshot => {},
        EventType::TriggerSnapshot => {},
        EventType::SwapSnapshots => {},
        EventType::BrowserMoveToItem => {},
        EventType::BrowserMoveToItemAbsolute => {},
        EventType::BrowserSelectItem => {},
        EventType::BrowserRenameItem => {},
        EventType::BrowserItemBrowsed => {},
        EventType::PatchBrowserMoveToBank => {},
        EventType::PatchBrowserMoveToBankByIndex => {},
        EventType::TransmitPlayingLoopsToDAW => {},
        EventType::SetVariable => {},
        EventType::ToggleVariable => {},
        EventType::SplitVariableMSBLSB => {},
        EventType::ParamSetGetAbsoluteParamIdx => {},
        EventType::ParamSetGetParam => {},
        EventType::ParamSetSetParam => {},
        EventType::LogFaderVolToLinear => {},
        EventType::VideoShowParamSetBank => {},
        EventType::VideoShowParamSetPage => {},
        EventType::VideoShowSnapshotPage => {},
        EventType::VideoShowLoop => {},
        EventType::VideoShowLayout => {},
        EventType::VideoSwitchInterface => {},
        EventType::VideoShowDisplay => {},
        EventType::VideoShowHelp => {},
        EventType::VideoFullScreen => {},
        EventType::ShowDebugInfo => {},
        EventType::ToggleDiskOutput => {},
        EventType::SetAutoLoopSaving => {},
        EventType::SaveLoop => {},
        EventType::SaveNewScene => {},
        EventType::SaveCurrentScene => {},
        EventType::SetLoadLoopId => {},
        EventType::SetDefaultLoopPlacement => {},
        _ => {},
    }
}


/// An event, with its data.  Float data (levels, times, factors) are
/// carried as their `f32` bit patterns, in fields named with `_bits`.
pub enum Event {
    NoEvent,
    StartSession,
    ExitSession,
    SlideLoopAmpStopAll,
    EraseAllLoops,
    ToggleDiskOutput,
    SaveNewScene,
    SaveCurrentScene,
    TransmitPlayingLoopsToDAW,
    PulseSync,
    MIDITuneRequestInput,
    MIDIActiveSensingInput,
    MIDIResetInput,
    EndRecord {
        keeprecord: bool,
    },
    GoSub {
        sub: i32,
        param1_bits: u32,
        param2_bits: u32,
        param3_bits: u32,
    },
    KeyInput {
        down: bool,
        keysym: i32,
        unicode: i32,
        presslen: u32,
    },
    LoopClicked {
        down: bool,
        button: i32,
        loopid: i32,
        in_layout: bool,
        presslen: u32,
    },
    JoystickButtonInput {
        down: bool,
        button: i32,
        joystick: i32,
        presslen: u32,
    },
    MouseButtonInput {
        down: bool,
        button: i32,
        x: i32,
        y: i32,
        presslen: u32,
    },
    MouseMotionInput {
        x: i32,
        y: i32,
    },
    TriggerLoop {
        index: i32,
        vol_bits: u32,
        engage: i32,
        shot: bool,
        overdub: bool,
        overdub_feedback_var: Option<String>,
    },
    MIDIControllerInput {
        outport: i32,
        channel: u8,
        ctrl: u8,
        val: u8,
        echo: bool,
    },
    MIDIChannelPressureInput {
        outport: i32,
        channel: u8,
        val: u8,
        echo: bool,
    },
    MIDIProgramChangeInput {
        outport: i32,
        channel: u8,
        val: u8,
        echo: bool,
    },
    MIDIPitchBendInput {
        outport: i32,
        channel: u8,
        val: i32,
        echo: bool,
    },
    MIDIPolyphonicPressureInput {
        channel: u8,
        notenum: u8,
        val: u8,
    },
    MIDISystemExclusiveInput {
        bytes: Vec<u8>,
    },
    MIDITimeCodeQuarterFrameInput {
        value: u16,
    },
    MIDISongPositionInput {
        value: u16,
    },
    MIDISongSelectInput {
        value: u16,
    },
    MIDIKeyInput {
        outport: i32,
        channel: u8,
        notenum: u8,
        vel: u8,
        down: bool,
        echo: bool,
    },
    MIDIClockInput {
        outport: i32,
    },
    MIDIStartStopInput {
        outport: i32,
        start: bool,
    },
    FluidSynthEnable {
        enable: bool,
    },
    SetMidiTuning {
        tuning_bits: u32,
    },
    BrowserMoveToItem {
        browserid: i32,
        adjust: i32,
        jump_adjust: i32,
    },
    BrowserMoveToItemAbsolute {
        browserid: i32,
        index: i32,
    },
    BrowserSelectItem {
        browserid: i32,
    },
    BrowserRenameItem {
        browserid: i32,
    },
    BrowserItemBrowsed {
        browserid: i32,
    },
    PatchBrowserMoveToBank {
        direction: i32,
    },
    PatchBrowserMoveToBankByIndex {
        index: i32,
    },
    StartInterface {
        interfaceid: i32,
    },
    VideoShowLayout {
        interfaceid: i32,
        layoutid: i32,
        show: bool,
        hideothers: bool,
    },
    VideoSwitchInterface {
        interfaceid: i32,
    },
    VideoShowDisplay {
        interfaceid: i32,
        displayid: i32,
        show: bool,
    },
    VideoShowHelp {
        page: i32,
    },
    VideoFullScreen {
        fullscreen: bool,
    },
    ShowDebugInfo {
        show: bool,
    },
    VideoShowLoop {
        interfaceid: i32,
        layoutid: i32,
        loopid: Range,
    },
    VideoShowSnapshotPage {
        interfaceid: i32,
        displayid: i32,
        page: i32,
    },
    VideoShowParamSetBank {
        interfaceid: i32,
        displayid: i32,
        bank: i32,
    },
    VideoShowParamSetPage {
        interfaceid: i32,
        displayid: i32,
        page: i32,
    },
    SlideMasterInVolume {
        slide_bits: u32,
    },
    SlideMasterOutVolume {
        slide_bits: u32,
    },
    SlideInVolume {
        input: i32,
        slide_bits: u32,
    },
    SetMasterInVolume {
        vol_bits: u32,
        fadervol_bits: u32,
    },
    SetMasterOutVolume {
        vol_bits: u32,
        fadervol_bits: u32,
    },
    SetInVolume {
        input: i32,
        vol_bits: u32,
        fadervol_bits: u32,
    },
    ToggleInputRecord {
        input: i32,
    },
    SetMidiEchoPort {
        echoport: i32,
    },
    SetMidiEchoChannel {
        echochannel: i32,
    },
    AdjustMidiTranspose {
        adjust: i32,
    },
    SetTriggerVolume {
        index: i32,
        vol_bits: u32,
    },
    SlideLoopAmp {
        index: i32,
        slide_bits: u32,
    },
    SetLoopAmp {
        index: i32,
        amp_bits: u32,
    },
    AdjustLoopAmp {
        index: i32,
        ampfactor_bits: u32,
    },
    ToggleSelectLoop {
        setid: i32,
        loopid: i32,
    },
    SelectOnlyPlayingLoops {
        setid: i32,
        playing: bool,
    },
    SelectAllLoops {
        setid: i32,
        select: bool,
    },
    InvertSelection {
        setid: i32,
    },
    TriggerSelectedLoops {
        setid: i32,
        vol_bits: u32,
        toggleloops: bool,
    },
    SetSelectedLoopsTriggerVolume {
        setid: i32,
        vol_bits: u32,
    },
    AdjustSelectedLoopsAmp {
        setid: i32,
        ampfactor_bits: u32,
    },
    MoveLoop {
        oldloopid: i32,
        newloopid: i32,
    },
    EraseLoop {
        index: i32,
    },
    SaveLoop {
        index: i32,
    },
    RenameLoop {
        loopid: i32,
        in_layout: bool,
    },
    EraseSelectedLoops {
        setid: i32,
    },
    SetAutoLoopSaving {
        save: bool,
    },
    SetLoadLoopId {
        index: i32,
    },
    SetDefaultLoopPlacement {
        looprange: Range,
    },
    SelectPulse {
        pulse: i32,
    },
    DeletePulse {
        pulse: i32,
    },
    TapPulse {
        pulse: i32,
        newlen: bool,
    },
    SwitchMetronome {
        pulse: i32,
        metronome: bool,
    },
    SetSyncType {
        stype: bool,
    },
    SetSyncSpeed {
        sspd: i32,
    },
    SetMidiSync {
        midisync: i32,
    },
    SetVariable {
        var_name: Option<String>,
        value: UserVariable,
        maxjumpcheck: bool,
        maxjump: UserVariable,
    },
    ToggleVariable {
        var_name: Option<String>,
        maxvalue: i32,
        minvalue: i32,
    },
    SplitVariableMSBLSB {
        var: UserVariable,
        msb_name: Option<String>,
        lsb_name: Option<String>,
    },
    ParamSetGetAbsoluteParamIdx {
        interfaceid: i32,
        displayid: i32,
        paramidx: i32,
        absidx_name: Option<String>,
    },
    ParamSetGetParam {
        interfaceid: i32,
        displayid: i32,
        paramidx: i32,
        var_name: Option<String>,
    },
    ParamSetSetParam {
        interfaceid: i32,
        displayid: i32,
        paramidx: i32,
        value_bits: u32,
    },
    LogFaderVolToLinear {
        var_name: Option<String>,
        fadervol: UserVariable,
        scale_bits: u32,
    },
    ALSAMixerControlSet {
        hwid: i32,
        numid: i32,
        val1: i32,
        val2: i32,
        val3: i32,
        val4: i32,
    },
    CreateSnapshot {
        snapid: i32,
    },
    SwapSnapshots {
        snapid1: i32,
        snapid2: i32,
    },
    RenameSnapshot {
        snapid: i32,
    },
    TriggerSnapshot {
        snapid: i32,
    },
}

/// The type of an event.
pub open spec fn event_type_of(e: &Event) -> EventType {
    match *e {
        Event::NoEvent => EventType::NoEvent,
        Event::StartSession => EventType::StartSession,
        Event::ExitSession => EventType::ExitSession,
        Event::SlideLoopAmpStopAll => EventType::SlideLoopAmpStopAll,
        Event::EraseAllLoops => EventType::EraseAllLoops,
        Event::ToggleDiskOutput => EventType::ToggleDiskOutput,
        Event::SaveNewScene => EventType::SaveNewScene,
        Event::SaveCurrentScene => EventType::SaveCurrentScene,
        Event::TransmitPlayingLoopsToDAW => EventType::TransmitPlayingLoopsToDAW,
        Event::PulseSync => EventType::PulseSync,
        Event::MIDITuneRequestInput => EventType::InputMIDITuneRequest,
        Event::MIDIActiveSensingInput => EventType::InputMIDIActiveSensing,
        Event::MIDIResetInput => EventType::InputMIDIReset,
        Event::EndRecord { .. } => EventType::EndRecord,
        Event::GoSub { .. } => EventType::GoSub,
        Event::KeyInput { .. } => EventType::InputKey,
        Event::LoopClicked { .. } => EventType::LoopClicked,
        Event::JoystickButtonInput { .. } => EventType::InputJoystickButton,
        Event::MouseButtonInput { .. } => EventType::InputMouseButton,
        Event::MouseMotionInput { .. } => EventType::InputMouseMotion,
        Event::TriggerLoop { .. } => EventType::TriggerLoop,
        Event::MIDIControllerInput { .. } => EventType::InputMIDIController,
        Event::MIDIChannelPressureInput { .. } => EventType::InputMIDIChannelPressure,
        Event::MIDIProgramChangeInput { .. } => EventType::InputMIDIProgramChange,
        Event::MIDIPitchBendInput { .. } => EventType::InputMIDIPitchBend,
        Event::MIDIPolyphonicPressureInput { .. } => EventType::InputMIDIPolyphonicPressure,
        Event::MIDISystemExclusiveInput { .. } => EventType::InputMIDISystemExclusive,
        Event::MIDITimeCodeQuarterFrameInput { .. } => EventType::InputMIDITimeCodeQuarterFrame,
        Event::MIDISongPositionInput { .. } => EventType::InputMIDISongPosition,
        Event::MIDISongSelectInput { .. } => EventType::InputMIDISongSelect,
        Event::MIDIKeyInput { .. } => EventType::InputMIDIKey,
        Event::MIDIClockInput { .. } => EventType::InputMIDIClock,
        Event::MIDIStartStopInput { .. } => EventType::InputMIDIStartStop,
        Event::FluidSynthEnable { .. } => EventType::FluidSynthEnable,
        Event::SetMidiTuning { .. } => EventType::SetMidiTuning,
        Event::BrowserMoveToItem { .. } => EventType::BrowserMoveToItem,
        Event::BrowserMoveToItemAbsolute { .. } => EventType::BrowserMoveToItemAbsolute,
        Event::BrowserSelectItem { .. } => EventType::BrowserSelectItem,
        Event::BrowserRenameItem { .. } => EventType::BrowserRenameItem,
        Event::BrowserItemBrowsed { .. } => EventType::BrowserItemBrowsed,
        Event::PatchBrowserMoveToBank { .. } => EventType::PatchBrowserMoveToBank,
        Event::PatchBrowserMoveToBankByIndex { .. } => EventType::PatchBrowserMoveToBankByIndex,
        Event::StartInterface { .. } => EventType::StartInterface,
        Event::VideoShowLayout { .. } => EventType::VideoShowLayout,
        Event::VideoSwitchInterface { .. } => EventType::VideoSwitchInterface,
        Event::VideoShowDisplay { .. } => EventType::VideoShowDisplay,
        Event::VideoShowHelp { .. } => EventType::VideoShowHelp,
        Event::VideoFullScreen { .. } => EventType::VideoFullScreen,
        Event::ShowDebugInfo { .. } => EventType::ShowDebugInfo,
        Event::VideoShowLoop { .. } => EventType::VideoShowLoop,
        Event::VideoShowSnapshotPage { .. } => EventType::VideoShowSnapshotPage,
        Event::VideoShowParamSetBank { .. } => EventType::VideoShowParamSetBank,
        Event::VideoShowParamSetPage { .. } => EventType::VideoShowParamSetPage,
        Event::SlideMasterInVolume { .. } => EventType::SlideMasterInVolume,
        Event::SlideMasterOutVolume { .. } => EventType::SlideMasterOutVolume,
        Event::SlideInVolume { .. } => EventType::SlideInVolume,
        Event::SetMasterInVolume { .. } => EventType::SetMasterInVolume,
        Event::SetMasterOutVolume { .. } => EventType::SetMasterOutVolume,
        Event::SetInVolume { .. } => EventType::SetInVolume,
        Event::ToggleInputRecord { .. } => EventType::ToggleInputRecord,
        Event::SetMidiEchoPort { .. } => EventType::SetMidiEchoPort,
        Event::SetMidiEchoChannel { .. } => EventType::SetMidiEchoChannel,
        Event::AdjustMidiTranspose { .. } => EventType::AdjustMidiTranspose,
        Event::SetTriggerVolume { .. } => EventType::SetTriggerVolume,
        Event::SlideLoopAmp { .. } => EventType::SlideLoopAmp,
        Event::SetLoopAmp { .. } => EventType::SetLoopAmp,
        Event::AdjustLoopAmp { .. } => EventType::AdjustLoopAmp,
        Event::ToggleSelectLoop { .. } => EventType::ToggleSelectLoop,
        Event::SelectOnlyPlayingLoops { .. } => EventType::SelectOnlyPlayingLoops,
        Event::SelectAllLoops { .. } => EventType::SelectAllLoops,
        Event::InvertSelection { .. } => EventType::InvertSelection,
        Event::TriggerSelectedLoops { .. } => EventType::TriggerSelectedLoops,
        Event::SetSelectedLoopsTriggerVolume { .. } => EventType::SetSelectedLoopsTriggerVolume,
        Event::AdjustSelectedLoopsAmp { .. } => EventType::AdjustSelectedLoopsAmp,
        Event::MoveLoop { .. } => EventType::MoveLoop,
        Event::EraseLoop { .. } => EventType::EraseLoop,
        Event::SaveLoop { .. } => EventType::SaveLoop,
        Event::RenameLoop { .. } => EventType::RenameLoop,
        Event::EraseSelectedLoops { .. } => EventType::EraseSelectedLoops,
        Event::SetAutoLoopSaving { .. } => EventType::SetAutoLoopSaving,
        Event::SetLoadLoopId { .. } => EventType::SetLoadLoopId,
        Event::SetDefaultLoopPlacement { .. } => EventType::SetDefaultLoopPlacement,
        Event::SelectPulse { .. } => EventType::SelectPulse,
        Event::DeletePulse { .. } => EventType::DeletePulse,
        Event::TapPulse { .. } => EventType::TapPulse,
        Event::SwitchMetronome { .. } => EventType::SwitchMetronome,
        Event::SetSyncType { .. } => EventType::SetSyncType,
        Event::SetSyncSpeed { .. } => EventType::SetSyncSpeed,
        Event::SetMidiSync { .. } => EventType::SetMidiSync,
        Event::SetVariable { .. } => EventType::SetVariable,
        Event::ToggleVariable { .. } => EventType::ToggleVariable,
        Event::SplitVariableMSBLSB { .. } => EventType::SplitVariableMSBLSB,
        Event::ParamSetGetAbsoluteParamIdx { .. } => EventType::ParamSetGetAbsoluteParamIdx,
        Event::ParamSetGetParam { .. } => EventType::ParamSetGetParam,
        Event::ParamSetSetParam { .. } => EventType::ParamSetSetParam,
        Event::LogFaderVolToLinear { .. } => EventType::LogFaderVolToLinear,
        Event::ALSAMixerControlSet { .. } => EventType::ALSAMixerControlSet,
        Event::CreateSnapshot { .. } => EventType::CreateSnapshot,
        Event::SwapSnapshots { .. } => EventType::SwapSnapshots,
        Event::RenameSnapshot { .. } => EventType::RenameSnapshot,
        Event::TriggerSnapshot { .. } => EventType::TriggerSnapshot,
    }
}

impl Event {
    /// The event's type.
    pub fn get_type(&self) -> (t: EventType)
        ensures
            t == event_type_of(self),
    {
        match self {
            Event::NoEvent => EventType::NoEvent,
            Event::StartSession => EventType::StartSession,
            Event::ExitSession => EventType::ExitSession,
            Event::SlideLoopAmpStopAll => EventType::SlideLoopAmpStopAll,
            Event::EraseAllLoops => EventType::EraseAllLoops,
            Event::ToggleDiskOutput => EventType::ToggleDiskOutput,
            Event::SaveNewScene => EventType::SaveNewScene,
            Event::SaveCurrentScene => EventType::SaveCurrentScene,
            Event::TransmitPlayingLoopsToDAW => EventType::TransmitPlayingLoopsToDAW,
            Event::PulseSync => EventType::PulseSync,
            Event::MIDITuneRequestInput => EventType::InputMIDITuneRequest,
            Event::MIDIActiveSensingInput => EventType::InputMIDIActiveSensing,
            Event::MIDIResetInput => EventType::InputMIDIReset,
            Event::EndRecord { .. } => EventType::EndRecord,
            Event::GoSub { .. } => EventType::GoSub,
            Event::KeyInput { .. } => EventType::InputKey,
            Event::LoopClicked { .. } => EventType::LoopClicked,
            Event::JoystickButtonInput { .. } => EventType::InputJoystickButton,
            Event::MouseButtonInput { .. } => EventType::InputMouseButton,
            Event::MouseMotionInput { .. } => EventType::InputMouseMotion,
            Event::TriggerLoop { .. } => EventType::TriggerLoop,
            Event::MIDIControllerInput { .. } => EventType::InputMIDIController,
            Event::MIDIChannelPressureInput { .. } => EventType::InputMIDIChannelPressure,
            Event::MIDIProgramChangeInput { .. } => EventType::InputMIDIProgramChange,
            Event::MIDIPitchBendInput { .. } => EventType::InputMIDIPitchBend,
            Event::MIDIPolyphonicPressureInput { .. } => EventType::InputMIDIPolyphonicPressure,
            Event::MIDISystemExclusiveInput { .. } => EventType::InputMIDISystemExclusive,
            Event::MIDITimeCodeQuarterFrameInput { .. } => EventType::InputMIDITimeCodeQuarterFrame,
            Event::MIDISongPositionInput { .. } => EventType::InputMIDISongPosition,
            Event::MIDISongSelectInput { .. } => EventType::InputMIDISongSelect,
            Event::MIDIKeyInput { .. } => EventType::InputMIDIKey,
            Event::MIDIClockInput { .. } => EventType::InputMIDIClock,
            Event::MIDIStartStopInput { .. } => EventType::InputMIDIStartStop,
            Event::FluidSynthEnable { .. } => EventType::FluidSynthEnable,
            Event::SetMidiTuning { .. } => EventType::SetMidiTuning,
            Event::BrowserMoveToItem { .. } => EventType::BrowserMoveToItem,
            Event::BrowserMoveToItemAbsolute { .. } => EventType::BrowserMoveToItemAbsolute,
            Event::BrowserSelectItem { .. } => EventType::BrowserSelectItem,
            Event::BrowserRenameItem { .. } => EventType::BrowserRenameItem,
            Event::BrowserItemBrowsed { .. } => EventType::BrowserItemBrowsed,
            Event::PatchBrowserMoveToBank { .. } => EventType::PatchBrowserMoveToBank,
            Event::PatchBrowserMoveToBankByIndex { .. } => EventType::PatchBrowserMoveToBankByIndex,
            Event::StartInterface { .. } => EventType::StartInterface,
            Event::VideoShowLayout { .. } => EventType::VideoShowLayout,
            Event::VideoSwitchInterface { .. } => EventType::VideoSwitchInterface,
            Event::VideoShowDisplay { .. } => EventType::VideoShowDisplay,
            Event::VideoShowHelp { .. } => EventType::VideoShowHelp,
            Event::VideoFullScreen { .. } => EventType::VideoFullScreen,
            Event::ShowDebugInfo { .. } => EventType::ShowDebugInfo,
            Event::VideoShowLoop { .. } => EventType::VideoShowLoop,
            Event::VideoShowSnapshotPage { .. } => EventType::VideoShowSnapshotPage,
            Event::VideoShowParamSetBank { .. } => EventType::VideoShowParamSetBank,
            Event::VideoShowParamSetPage { .. } => EventType::VideoShowParamSetPage,
            Event::SlideMasterInVolume { .. } => EventType::SlideMasterInVolume,
            Event::SlideMasterOutVolume { .. } => EventType::SlideMasterOutVolume,
            Event::SlideInVolume { .. } => EventType::SlideInVolume,
            Event::SetMasterInVolume { .. } => EventType::SetMasterInVolume,
            Event::SetMasterOutVolume { .. } => EventType::SetMasterOutVolume,
            Event::SetInVolume { .. } => EventType::SetInVolume,
            Event::ToggleInputRecord { .. } => EventType::ToggleInputRecord,
            Event::SetMidiEchoPort { .. } => EventType::SetMidiEchoPort,
            Event::SetMidiEchoChannel { .. } => EventType::SetMidiEchoChannel,
            Event::AdjustMidiTranspose { .. } => EventType::AdjustMidiTranspose,
            Event::SetTriggerVolume { .. } => EventType::SetTriggerVolume,
            Event::SlideLoopAmp { .. } => EventType::SlideLoopAmp,
            Event::SetLoopAmp { .. } => EventType::SetLoopAmp,
            Event::AdjustLoopAmp { .. } => EventType::AdjustLoopAmp,
            Event::ToggleSelectLoop { .. } => EventType::ToggleSelectLoop,
            Event::SelectOnlyPlayingLoops { .. } => EventType::SelectOnlyPlayingLoops,
            Event::SelectAllLoops { .. } => EventType::SelectAllLoops,
            Event::InvertSelection { .. } => EventType::InvertSelection,
            Event::TriggerSelectedLoops { .. } => EventType::TriggerSelectedLoops,
            Event::SetSelectedLoopsTriggerVolume { .. } => EventType::SetSelectedLoopsTriggerVolume,
            Event::AdjustSelectedLoopsAmp { .. } => EventType::AdjustSelectedLoopsAmp,
            Event::MoveLoop { .. } => EventType::MoveLoop,
            Event::EraseLoop { .. } => EventType::EraseLoop,
            Event::SaveLoop { .. } => EventType::SaveLoop,
            Event::RenameLoop { .. } => EventType::RenameLoop,
            Event::EraseSelectedLoops { .. } => EventType::EraseSelectedLoops,
            Event::SetAutoLoopSaving { .. } => EventType::SetAutoLoopSaving,
            Event::SetLoadLoopId { .. } => EventType::SetLoadLoopId,
            Event::SetDefaultLoopPlacement { .. } => EventType::SetDefaultLoopPlacement,
            Event::SelectPulse { .. } => EventType::SelectPulse,
            Event::DeletePulse { .. } => EventType::DeletePulse,
            Event::TapPulse { .. } => EventType::TapPulse,
            Event::SwitchMetronome { .. } => EventType::SwitchMetronome,
            Event::SetSyncType { .. } => EventType::SetSyncType,
            Event::SetSyncSpeed { .. } => EventType::SetSyncSpeed,
            Event::SetMidiSync { .. } => EventType::SetMidiSync,
            Event::SetVariable { .. } => EventType::SetVariable,
            Event::ToggleVariable { .. } => EventType::ToggleVariable,
            Event::SplitVariableMSBLSB { .. } => EventType::SplitVariableMSBLSB,
            Event::ParamSetGetAbsoluteParamIdx { .. } => EventType::ParamSetGetAbsoluteParamIdx,
            Event::ParamSetGetParam { .. } => EventType::ParamSetGetParam,
            Event::ParamSetSetParam { .. } => EventType::ParamSetSetParam,
            Event::LogFaderVolToLinear { .. } => EventType::LogFaderVolToLinear,
            Event::ALSAMixerControlSet { .. } => EventType::ALSAMixerControlSet,
            Event::CreateSnapshot { .. } => EventType::CreateSnapshot,
            Event::SwapSnapshots { .. } => EventType::SwapSnapshots,
            Event::RenameSnapshot { .. } => EventType::RenameSnapshot,
            Event::TriggerSnapshot { .. } => EventType::TriggerSnapshot,
        }
    }

    /// The number of parameters of the event's type.
    pub fn get_num_params(&self) -> (n: usize)
        ensures
            n == event_parameters(event_type_of(self)).len(),
    {
        self.get_type().parameters().len()
    }

    /// Parameter `idx` of the event's type, if it has one.
    pub fn get_param(&self, idx: usize) -> (r: Option<EventParameter>)
        ensures
            match r {
                Some(p) => idx < event_parameters(event_type_of(self)).len() && p@ == event_parameters(
                    event_type_of(self),
                )[idx as int],
                None => idx >= event_parameters(event_type_of(self)).len(),
            },
    {
        let ps = self.get_type().parameters();
        if idx < ps.len() {
            let p = ps[idx];
            assert(params_view(ps@)[idx as int] == p@);
            Some(p)
        } else {
            None
        }
    }
}

} // verus!
