//! The values that binding expressions read from an event's parameters.

use vstd::prelude::*;
use crate::datatypes::{CoreDataType, UserVariable, f32_as_int};
use crate::event::{Event, EventParameter, ParamValue, event_parameters, event_type_of};
use crate::text::str_eq;

verus! {

/// A parameter's value: absent (the variable stays untyped), a `char`, an
/// `int`, or a `float` given by its bits.
#[derive(Clone, Copy, Debug, PartialEq, Eq, Structural)]
pub enum EventValue {
    Unset,
    Char(i8),
    Int(i32),
    FloatBits(u32),
}

/// The value of the parameter named `name` of event `ev`: each kind of
/// event offers its own parameters; a flag reads as a `char` 1 or 0.
pub open spec fn event_parameter_value(ev: Event, name: Seq<char>) -> EventValue {
    match ev {
        Event::KeyInput { down, keysym, unicode, .. } => {
            if name == "keydown"@ {
                EventValue::Char(if down { 1i8 } else { 0i8 })
            } else if name == "key"@ {
                EventValue::Int(keysym)
            } else if name == "unicode"@ {
                EventValue::Int(unicode)
            } else {
                EventValue::Unset
            }
        },
        Event::GoSub { sub, param1_bits, param2_bits, param3_bits } => {
            if name == "sub"@ {
                EventValue::Int(sub)
            } else if name == "param1"@ {
                EventValue::FloatBits(param1_bits)
            } else if name == "param2"@ {
                EventValue::FloatBits(param2_bits)
            } else if name == "param3"@ {
                EventValue::FloatBits(param3_bits)
            } else {
                EventValue::Unset
            }
        },
        Event::LoopClicked { down, button, loopid, in_layout, .. } => {
            if name == "down"@ {
                EventValue::Char(if down { 1i8 } else { 0i8 })
            } else if name == "button"@ {
                EventValue::Int(button)
            } else if name == "loopid"@ {
                EventValue::Int(loopid)
            } else if name == "in"@ {
                EventValue::Char(if in_layout { 1i8 } else { 0i8 })
            } else {
                EventValue::Unset
            }
        },
        Event::JoystickButtonInput { down, button, joystick, .. } => {
            if name == "down"@ {
                EventValue::Char(if down { 1i8 } else { 0i8 })
            } else if name == "button"@ {
                EventValue::Int(button)
            } else if name == "joystick"@ {
                EventValue::Int(joystick)
            } else {
                EventValue::Unset
            }
        },
        Event::MouseButtonInput { down, button, x, y, .. } => {
            if name == "down"@ {
                EventValue::Char(if down { 1i8 } else { 0i8 })
            } else if name == "button"@ {
                EventValue::Int(button)
            } else if name == "x"@ {
                EventValue::Int(x)
            } else if name == "y"@ {
                EventValue::Int(y)
            } else {
                EventValue::Unset
            }
        },
        Event::MouseMotionInput { x, y } => {
            if name == "x"@ {
                EventValue::Int(x)
            } else if name == "y"@ {
                EventValue::Int(y)
            } else {
                EventValue::Unset
            }
        },
        Event::MIDIKeyInput { outport, channel, notenum, vel, down, echo } => {
            if name == "outport"@ {
                EventValue::Int(outport)
            } else if name == "keydown"@ {
                EventValue::Char(if down { 1i8 } else { 0i8 })
            } else if name == "midichannel"@ {
                EventValue::Int(channel as i32)
            } else if name == "notenum"@ {
                EventValue::Int(notenum as i32)
            } else if name == "velocity"@ {
                EventValue::Int(vel as i32)
            } else if name == "routethroughpatch"@ {
                EventValue::Char(if echo { 1i8 } else { 0i8 })
            } else {
                EventValue::Unset
            }
        },
        Event::MIDIControllerInput { outport, channel, ctrl, val, echo } => {
            if name == "outport"@ {
                EventValue::Int(outport)
            } else if name == "midichannel"@ {
                EventValue::Int(channel as i32)
            } else if name == "controlnum"@ {
                EventValue::Int(ctrl as i32)
            } else if name == "controlval"@ {
                EventValue::Int(val as i32)
            } else if name == "routethroughpatch"@ {
                EventValue::Char(if echo { 1i8 } else { 0i8 })
            } else {
                EventValue::Unset
            }
        },
        Event::MIDIProgramChangeInput { outport, channel, val, echo } => {
            if name == "outport"@ {
                EventValue::Int(outport)
            } else if name == "midichannel"@ {
                EventValue::Int(channel as i32)
            } else if name == "programval"@ {
                EventValue::Int(val as i32)
            } else if name == "routethroughpatch"@ {
                EventValue::Char(if echo { 1i8 } else { 0i8 })
            } else {
                EventValue::Unset
            }
        },
        Event::MIDIChannelPressureInput { outport, channel, val, echo } => {
            if name == "outport"@ {
                EventValue::Int(outport)
            } else if name == "midichannel"@ {
                EventValue::Int(channel as i32)
            } else if name == "pressureval"@ {
                EventValue::Int(val as i32)
            } else if name == "routethroughpatch"@ {
                EventValue::Char(if echo { 1i8 } else { 0i8 })
            } else {
                EventValue::Unset
            }
        },
        Event::MIDIPitchBendInput { outport, channel, val, echo } => {
            if name == "outport"@ {
                EventValue::Int(outport)
            } else if name == "midichannel"@ {
                EventValue::Int(channel as i32)
            } else if name == "pitchval"@ {
                EventValue::Int(val)
            } else if name == "routethroughpatch"@ {
                EventValue::Char(if echo { 1i8 } else { 0i8 })
            } else {
                EventValue::Unset
            }
        },
        Event::MIDIClockInput { outport } => {
            if name == "outport"@ {
                EventValue::Int(outport)
            } else {
                EventValue::Unset
            }
        },
        Event::MIDIStartStopInput { outport, start } => {
            if name == "outport"@ {
                EventValue::Int(outport)
            } else if name == "start"@ {
                EventValue::Char(if start { 1i8 } else { 0i8 })
            } else {
                EventValue::Unset
            }
        },
        Event::BrowserMoveToItem { browserid, adjust, jump_adjust } => {
            if name == "browserid"@ {
                EventValue::Int(browserid)
            } else if name == "adjust"@ {
                EventValue::Int(adjust)
            } else if name == "jumpadjust"@ {
                EventValue::Int(jump_adjust)
            } else {
                EventValue::Unset
            }
        },
        Event::BrowserMoveToItemAbsolute { browserid, index } => {
            if name == "browserid"@ {
                EventValue::Int(browserid)
            } else if name == "idx"@ {
                EventValue::Int(index)
            } else {
                EventValue::Unset
            }
        },
        Event::StartInterface { interfaceid } => {
            if name == "interfaceid"@ {
                EventValue::Int(interfaceid)
            } else {
                EventValue::Unset
            }
        },
        Event::SlideInVolume { input, slide_bits } => {
            if name == "input"@ {
                EventValue::Int(input)
            } else if name == "slide"@ {
                EventValue::FloatBits(slide_bits)
            } else {
                EventValue::Unset
            }
        },
        Event::SetInVolume { input, vol_bits, fadervol_bits } => {
            if name == "input"@ {
                EventValue::Int(input)
            } else if name == "vol"@ {
                EventValue::FloatBits(vol_bits)
            } else if name == "fadervol"@ {
                EventValue::FloatBits(fadervol_bits)
            } else {
                EventValue::Unset
            }
        },
        Event::TriggerLoop { index, vol_bits, .. } => {
            if name == "loopid"@ {
                EventValue::Int(index)
            } else if name == "vol"@ {
                EventValue::FloatBits(vol_bits)
            } else {
                EventValue::Unset
            }
        },
        _ => EventValue::Unset,
    }
}

/// The variable `v` holds the parameter value `p` (and has no name).
pub open spec fn holds_param(v: UserVariable, p: EventValue) -> bool {
    &&& v.name is None
    &&& match p {
        EventValue::Unset => v.type_ == CoreDataType::Invalid,
        EventValue::Char(c) => v.type_ == CoreDataType::Char && v.stored_char() == c,
        EventValue::Int(i) => v.type_ == CoreDataType::Int && v.stored_int() == i,
        EventValue::FloatBits(b) => v.type_ == CoreDataType::Float && v.stored_float_bits() == b,
    }
}

fn param_value(ev: &Event, name: &str) -> (p: EventValue)
    ensures
        p == event_parameter_value(*ev, name@),
{
    match ev {
        Event::KeyInput { down, keysym, unicode, .. } => {
            if str_eq(name, "keydown") {
                EventValue::Char(if *down { 1i8 } else { 0i8 })
            } else if str_eq(name, "key") {
                EventValue::Int(*keysym)
            } else if str_eq(name, "unicode") {
                EventValue::Int(*unicode)
            } else {
                EventValue::Unset
            }
        },
        Event::GoSub { sub, param1_bits, param2_bits, param3_bits } => {
            if str_eq(name, "sub") {
                EventValue::Int(*sub)
            } else if str_eq(name, "param1") {
                EventValue::FloatBits(*param1_bits)
            } else if str_eq(name, "param2") {
                EventValue::FloatBits(*param2_bits)
            } else if str_eq(name, "param3") {
                EventValue::FloatBits(*param3_bits)
            } else {
                EventValue::Unset
            }
        },
        Event::LoopClicked { down, button, loopid, in_layout, .. } => {
            if str_eq(name, "down") {
                EventValue::Char(if *down { 1i8 } else { 0i8 })
            } else if str_eq(name, "button") {
                EventValue::Int(*button)
            } else if str_eq(name, "loopid") {
                EventValue::Int(*loopid)
            } else if str_eq(name, "in") {
                EventValue::Char(if *in_layout { 1i8 } else { 0i8 })
            } else {
                EventValue::Unset
            }
        },
        Event::JoystickButtonInput { down, button, joystick, .. } => {
            if str_eq(name, "down") {
                EventValue::Char(if *down { 1i8 } else { 0i8 })
            } else if str_eq(name, "button") {
                EventValue::Int(*button)
            } else if str_eq(name, "joystick") {
                EventValue::Int(*joystick)
            } else {
                EventValue::Unset
            }
        },
        Event::MouseButtonInput { down, button, x, y, .. } => {
            if str_eq(name, "down") {
                EventValue::Char(if *down { 1i8 } else { 0i8 })
            } else if str_eq(name, "button") {
                EventValue::Int(*button)
            } else if str_eq(name, "x") {
                EventValue::Int(*x)
            } else if str_eq(name, "y") {
                EventValue::Int(*y)
            } else {
                EventValue::Unset
            }
        },
        Event::MouseMotionInput { x, y } => {
            if str_eq(name, "x") {
                EventValue::Int(*x)
            } else if str_eq(name, "y") {
                EventValue::Int(*y)
            } else {
                EventValue::Unset
            }
        },
        Event::MIDIKeyInput { outport, channel, notenum, vel, down, echo } => {
            if str_eq(name, "outport") {
                EventValue::Int(*outport)
            } else if str_eq(name, "keydown") {
                EventValue::Char(if *down { 1i8 } else { 0i8 })
            } else if str_eq(name, "midichannel") {
                EventValue::Int(*channel as i32)
            } else if str_eq(name, "notenum") {
                EventValue::Int(*notenum as i32)
            } else if str_eq(name, "velocity") {
                EventValue::Int(*vel as i32)
            } else if str_eq(name, "routethroughpatch") {
                EventValue::Char(if *echo { 1i8 } else { 0i8 })
            } else {
                EventValue::Unset
            }
        },
        Event::MIDIControllerInput { outport, channel, ctrl, val, echo } => {
            if str_eq(name, "outport") {
                EventValue::Int(*outport)
            } else if str_eq(name, "midichannel") {
                EventValue::Int(*channel as i32)
            } else if str_eq(name, "controlnum") {
                EventValue::Int(*ctrl as i32)
            } else if str_eq(name, "controlval") {
                EventValue::Int(*val as i32)
            } else if str_eq(name, "routethroughpatch") {
                EventValue::Char(if *echo { 1i8 } else { 0i8 })
            } else {
                EventValue::Unset
            }
        },
        Event::MIDIProgramChangeInput { outport, channel, val, echo } => {
            if str_eq(name, "outport") {
                EventValue::Int(*outport)
            } else if str_eq(name, "midichannel") {
                EventValue::Int(*channel as i32)
            } else if str_eq(name, "programval") {
                EventValue::Int(*val as i32)
            } else if str_eq(name, "routethroughpatch") {
                EventValue::Char(if *echo { 1i8 } else { 0i8 })
            } else {
                EventValue::Unset
            }
        },
        Event::MIDIChannelPressureInput { outport, channel, val, echo } => {
            if str_eq(name, "outport") {
                EventValue::Int(*outport)
            } else if str_eq(name, "midichannel") {
                EventValue::Int(*channel as i32)
            } else if str_eq(name, "pressureval") {
                EventValue::Int(*val as i32)
            } else if str_eq(name, "routethroughpatch") {
                EventValue::Char(if *echo { 1i8 } else { 0i8 })
            } else {
                EventValue::Unset
            }
        },
        Event::MIDIPitchBendInput { outport, channel, val, echo } => {
            if str_eq(name, "outport") {
                EventValue::Int(*outport)
            } else if str_eq(name, "midichannel") {
                EventValue::Int(*channel as i32)
            } else if str_eq(name, "pitchval") {
                EventValue::Int(*val)
            } else if str_eq(name, "routethroughpatch") {
                EventValue::Char(if *echo { 1i8 } else { 0i8 })
            } else {
                EventValue::Unset
            }
        },
        Event::MIDIClockInput { outport } => {
            if str_eq(name, "outport") {
                EventValue::Int(*outport)
            } else {
                EventValue::Unset
            }
        },
        Event::MIDIStartStopInput { outport, start } => {
            if str_eq(name, "outport") {
                EventValue::Int(*outport)
            } else if str_eq(name, "start") {
                EventValue::Char(if *start { 1i8 } else { 0i8 })
            } else {
                EventValue::Unset
            }
        },
        Event::BrowserMoveToItem { browserid, adjust, jump_adjust } => {
            if str_eq(name, "browserid") {
                EventValue::Int(*browserid)
            } else if str_eq(name, "adjust") {
                EventValue::Int(*adjust)
            } else if str_eq(name, "jumpadjust") {
                EventValue::Int(*jump_adjust)
            } else {
                EventValue::Unset
            }
        },
        Event::BrowserMoveToItemAbsolute { browserid, index } => {
            if str_eq(name, "browserid") {
                EventValue::Int(*browserid)
            } else if str_eq(name, "idx") {
                EventValue::Int(*index)
            } else {
                EventValue::Unset
            }
        },
        Event::StartInterface { interfaceid } => {
            if str_eq(name, "interfaceid") {
                EventValue::Int(*interfaceid)
            } else {
                EventValue::Unset
            }
        },
        Event::SlideInVolume { input, slide_bits } => {
            if str_eq(name, "input") {
                EventValue::Int(*input)
            } else if str_eq(name, "slide") {
                EventValue::FloatBits(*slide_bits)
            } else {
                EventValue::Unset
            }
        },
        Event::SetInVolume { input, vol_bits, fadervol_bits } => {
            if str_eq(name, "input") {
                EventValue::Int(*input)
            } else if str_eq(name, "vol") {
                EventValue::FloatBits(*vol_bits)
            } else if str_eq(name, "fadervol") {
                EventValue::FloatBits(*fadervol_bits)
            } else {
                EventValue::Unset
            }
        },
        Event::TriggerLoop { index, vol_bits, .. } => {
            if str_eq(name, "loopid") {
                EventValue::Int(*index)
            } else if str_eq(name, "vol") {
                EventValue::FloatBits(*vol_bits)
            } else {
                EventValue::Unset
            }
        },
        _ => EventValue::Unset,
    }
}

/// The value of parameter `param` of `ev`, as a fresh unnamed variable:
/// untyped when the event has no such parameter.
pub fn read_event_parameter(ev: &Event, param: &EventParameter) -> (v: UserVariable)
    ensures
        holds_param(v, event_parameter_value(*ev, param.name@)),
{
    let mut value = UserVariable::new();
    match param_value(ev, param.name) {
        EventValue::Unset => {},
        EventValue::Char(c) => value.set_char(c),
        EventValue::Int(i) => value.set_int(i),
        EventValue::FloatBits(b) => value.set_float_bits(b),
    }
    value
}

/// The index of the first parameter among `ps` (from `from` on) that
/// indexes bindings (has a largest index), if any.
pub open spec fn first_indexed_from(ps: Seq<ParamValue>, from: int) -> Option<int>
    decreases ps.len() - from,
{
    if from < 0 || from >= ps.len() {
        None
    } else if ps[from].2 >= 0 {
        Some(from)
    } else {
        first_indexed_from(ps, from + 1)
    }
}

/// The first parameter of `ev`'s type that has a largest index: the one by
/// which its bindings are put into buckets.
pub fn first_indexed_param(ev: &Event) -> (r: Option<EventParameter>)
    ensures
        match first_indexed_from(event_parameters(event_type_of(ev)), 0) {
            Some(k) => r matches Some(p) && p@ == event_parameters(event_type_of(ev))[k],
            None => r is None,
        },
{
    let ghost ps = event_parameters(event_type_of(ev));
    let n = ev.get_num_params();
    let mut i: usize = 0;
    while i < n
        invariant
            i <= n,
            n == ps.len(),
            ps == event_parameters(event_type_of(ev)),
            first_indexed_from(ps, 0) == first_indexed_from(ps, i as int),
        decreases n - i,
    {
        match ev.get_param(i) {
            Some(p) => {
                if p.max_index >= 0 {
                    return Some(p);
                }
            },
            None => {},
        }
        i = i + 1;
    }
    None
}

/// The bucket of a binding whose indexing parameter `param` has the value
/// `raw`: none unless `param` is an `int` with a largest index; a negative
/// value goes to the last bucket, others by their remainder.
pub open spec fn bucket_index_spec(param: ParamValue, raw: i32) -> Option<int> {
    if param.1 != CoreDataType::Int || param.2 < 0 {
        None
    } else if raw < 0 {
        Some(param.2 as int)
    } else {
        Some((raw as int) % (param.2 as int))
    }
}

/// The bucket that `value` of the indexing parameter `param` selects (see
/// `bucket_index_spec`).  A largest index of 0 with an `int` type is not
/// taken (the remainder would divide by zero).
pub fn binding_bucket_index(param: EventParameter, value: &UserVariable) -> (r: Option<usize>)
    requires
        !(param.dtype == CoreDataType::Int && param.max_index == 0 && value.int_value() >= 0),
    ensures
        match bucket_index_spec(param@, value.int_value()) {
            Some(b) => r == Some(b as usize),
            None => r is None,
        },
{
    if param.dtype != CoreDataType::Int || param.max_index < 0 {
        return None;
    }
    let raw = value.as_i32();
    if raw < 0 {
        Some(param.max_index as usize)
    } else {
        Some((raw % param.max_index) as usize)
    }
}

/// The value a binding's index reads from a parameter value, as an `int`
/// (absent reads as 0, a `float` truncated and saturated).
pub open spec fn reading_as_int(v: EventValue) -> i32 {
    match v {
        EventValue::Unset => 0,
        EventValue::Char(c) => c as i32,
        EventValue::Int(i) => i,
        EventValue::FloatBits(b) => f32_as_int(b, i32::MIN as int, i32::MAX as int) as i32,
    }
}

/// The bucket of the bindings that event `ev` can match, by the value of
/// the table's indexing parameter (none without one).
pub fn event_bucket_index(ev: &Event, indexed_param: Option<EventParameter>) -> (r: Option<usize>)
    requires
        indexed_param matches Some(p) ==> !(p.dtype == CoreDataType::Int && p.max_index == 0 && reading_as_int(
            event_parameter_value(*ev, p.name@),
        ) >= 0),
    ensures
        match indexed_param {
            None => r is None,
            Some(p) => match bucket_index_spec(p@, reading_as_int(event_parameter_value(*ev, p.name@))) {
                Some(b) => r == Some(b as usize),
                None => r is None,
            },
        },
{
    match indexed_param {
        None => None,
        Some(p) => {
            let value = read_event_parameter(ev, &p);
            binding_bucket_index(p, &value)
        },
    }
}

/// Law: the parameters of a key press: whether it is down, its key and its character.
pub proof fn law_key_input_parameters(down: bool, keysym: i32, unicode: i32, presslen: u32)
    ensures
        event_parameter_value(Event::KeyInput { down, keysym, unicode, presslen }, "keydown"@) == EventValue::Char(if down { 1i8 } else { 0i8 }),
        event_parameter_value(Event::KeyInput { down, keysym, unicode, presslen }, "key"@) == EventValue::Int(keysym),
        event_parameter_value(Event::KeyInput { down, keysym, unicode, presslen }, "unicode"@) == EventValue::Int(unicode),
{
    reveal_strlit("keydown");
    reveal_strlit("key");
    reveal_strlit("unicode");
    assert("keydown"@.len() == 7);
    assert("key"@.len() == 3);
    assert("unicode"@.len() == 7);
    assert("keydown"@ != "key"@);
    assert("keydown"@[0] != "unicode"@[0]);
    assert("keydown"@ != "unicode"@);
    assert("key"@ != "unicode"@);
}

/// Law: the parameters of a click on a loop: whether it is down, the button, the loop and whether it was in a layout.
pub proof fn law_loop_clicked_parameters(down: bool, button: i32, loopid: i32, in_layout: bool, presslen: u32)
    ensures
        event_parameter_value(Event::LoopClicked { down, button, loopid, in_layout, presslen }, "down"@) == EventValue::Char(if down { 1i8 } else { 0i8 }),
        event_parameter_value(Event::LoopClicked { down, button, loopid, in_layout, presslen }, "button"@) == EventValue::Int(button),
        event_parameter_value(Event::LoopClicked { down, button, loopid, in_layout, presslen }, "loopid"@) == EventValue::Int(loopid),
        event_parameter_value(Event::LoopClicked { down, button, loopid, in_layout, presslen }, "in"@) == EventValue::Char(if in_layout { 1i8 } else { 0i8 }),
{
    reveal_strlit("down");
    reveal_strlit("button");
    reveal_strlit("loopid");
    reveal_strlit("in");
    assert("down"@.len() == 4);
    assert("button"@.len() == 6);
    assert("loopid"@.len() == 6);
    assert("in"@.len() == 2);
    assert("down"@ != "button"@);
    assert("down"@ != "loopid"@);
    assert("down"@ != "in"@);
    assert("button"@[0] != "loopid"@[0]);
    assert("button"@ != "loopid"@);
    assert("button"@ != "in"@);
    assert("loopid"@ != "in"@);
}

/// Law: the parameters of a joystick button: whether it is down, the button and the joystick.
pub proof fn law_joystick_button_parameters(down: bool, button: i32, joystick: i32, presslen: u32)
    ensures
        event_parameter_value(Event::JoystickButtonInput { down, button, joystick, presslen }, "down"@) == EventValue::Char(if down { 1i8 } else { 0i8 }),
        event_parameter_value(Event::JoystickButtonInput { down, button, joystick, presslen }, "button"@) == EventValue::Int(button),
        event_parameter_value(Event::JoystickButtonInput { down, button, joystick, presslen }, "joystick"@) == EventValue::Int(joystick),
{
    reveal_strlit("down");
    reveal_strlit("button");
    reveal_strlit("joystick");
    assert("down"@.len() == 4);
    assert("button"@.len() == 6);
    assert("joystick"@.len() == 8);
    assert("down"@ != "button"@);
    assert("down"@ != "joystick"@);
    assert("button"@ != "joystick"@);
}

/// Law: the parameters of a mouse button: whether it is down, the button and where.
pub proof fn law_mouse_button_parameters(down: bool, button: i32, x: i32, y: i32, presslen: u32)
    ensures
        event_parameter_value(Event::MouseButtonInput { down, button, x, y, presslen }, "down"@) == EventValue::Char(if down { 1i8 } else { 0i8 }),
        event_parameter_value(Event::MouseButtonInput { down, button, x, y, presslen }, "button"@) == EventValue::Int(button),
        event_parameter_value(Event::MouseButtonInput { down, button, x, y, presslen }, "x"@) == EventValue::Int(x),
        event_parameter_value(Event::MouseButtonInput { down, button, x, y, presslen }, "y"@) == EventValue::Int(y),
{
    reveal_strlit("down");
    reveal_strlit("button");
    reveal_strlit("x");
    reveal_strlit("y");
    assert("down"@.len() == 4);
    assert("button"@.len() == 6);
    assert("x"@.len() == 1);
    assert("y"@.len() == 1);
    assert("down"@ != "button"@);
    assert("down"@ != "x"@);
    assert("down"@ != "y"@);
    assert("button"@ != "x"@);
    assert("button"@ != "y"@);
    assert("x"@[0] != "y"@[0]);
    assert("x"@ != "y"@);
}

/// Law: the parameters of a MIDI note: its port, whether it is down, its channel, note and velocity, and whether it is routed through.
pub proof fn law_midi_key_parameters(outport: i32, channel: u8, notenum: u8, vel: u8, down: bool, echo: bool)
    ensures
        event_parameter_value(Event::MIDIKeyInput { outport, channel, notenum, vel, down, echo }, "outport"@) == EventValue::Int(outport),
        event_parameter_value(Event::MIDIKeyInput { outport, channel, notenum, vel, down, echo }, "keydown"@) == EventValue::Char(if down { 1i8 } else { 0i8 }),
        event_parameter_value(Event::MIDIKeyInput { outport, channel, notenum, vel, down, echo }, "midichannel"@) == EventValue::Int(channel as i32),
        event_parameter_value(Event::MIDIKeyInput { outport, channel, notenum, vel, down, echo }, "notenum"@) == EventValue::Int(notenum as i32),
        event_parameter_value(Event::MIDIKeyInput { outport, channel, notenum, vel, down, echo }, "velocity"@) == EventValue::Int(vel as i32),
        event_parameter_value(Event::MIDIKeyInput { outport, channel, notenum, vel, down, echo }, "routethroughpatch"@) == EventValue::Char(if echo { 1i8 } else { 0i8 }),
{
    reveal_strlit("outport");
    reveal_strlit("keydown");
    reveal_strlit("midichannel");
    reveal_strlit("notenum");
    reveal_strlit("velocity");
    reveal_strlit("routethroughpatch");
    assert("outport"@.len() == 7);
    assert("keydown"@.len() == 7);
    assert("midichannel"@.len() == 11);
    assert("notenum"@.len() == 7);
    assert("velocity"@.len() == 8);
    assert("routethroughpatch"@.len() == 17);
    assert("outport"@[0] != "keydown"@[0]);
    assert("outport"@ != "keydown"@);
    assert("outport"@ != "midichannel"@);
    assert("outport"@[0] != "notenum"@[0]);
    assert("outport"@ != "notenum"@);
    assert("outport"@ != "velocity"@);
    assert("outport"@ != "routethroughpatch"@);
    assert("keydown"@ != "midichannel"@);
    assert("keydown"@[0] != "notenum"@[0]);
    assert("keydown"@ != "notenum"@);
    assert("keydown"@ != "velocity"@);
    assert("keydown"@ != "routethroughpatch"@);
    assert("midichannel"@ != "notenum"@);
    assert("midichannel"@ != "velocity"@);
    assert("midichannel"@ != "routethroughpatch"@);
    assert("notenum"@ != "velocity"@);
    assert("notenum"@ != "routethroughpatch"@);
    assert("velocity"@ != "routethroughpatch"@);
}

/// Law: the parameters of a MIDI controller: its port and channel, the controller number, the controller's value, and whether it is routed through.
pub proof fn law_midi_controller_parameters(outport: i32, channel: u8, ctrl: u8, val: u8, echo: bool)
    ensures
        event_parameter_value(Event::MIDIControllerInput { outport, channel, ctrl, val, echo }, "outport"@) == EventValue::Int(outport),
        event_parameter_value(Event::MIDIControllerInput { outport, channel, ctrl, val, echo }, "midichannel"@) == EventValue::Int(channel as i32),
        event_parameter_value(Event::MIDIControllerInput { outport, channel, ctrl, val, echo }, "controlnum"@) == EventValue::Int(ctrl as i32),
        event_parameter_value(Event::MIDIControllerInput { outport, channel, ctrl, val, echo }, "controlval"@) == EventValue::Int(val as i32),
        event_parameter_value(Event::MIDIControllerInput { outport, channel, ctrl, val, echo }, "routethroughpatch"@) == EventValue::Char(if echo { 1i8 } else { 0i8 }),
{
    reveal_strlit("outport");
    reveal_strlit("midichannel");
    reveal_strlit("controlnum");
    reveal_strlit("controlval");
    reveal_strlit("routethroughpatch");
    assert("outport"@.len() == 7);
    assert("midichannel"@.len() == 11);
    assert("controlnum"@.len() == 10);
    assert("controlval"@.len() == 10);
    assert("routethroughpatch"@.len() == 17);
    assert("outport"@ != "midichannel"@);
    assert("outport"@ != "controlnum"@);
    assert("outport"@ != "controlval"@);
    assert("outport"@ != "routethroughpatch"@);
    assert("midichannel"@ != "controlnum"@);
    assert("midichannel"@ != "controlval"@);
    assert("midichannel"@ != "routethroughpatch"@);
    assert("controlnum"@[7] != "controlval"@[7]);
    assert("controlnum"@ != "controlval"@);
    assert("controlnum"@ != "routethroughpatch"@);
    assert("controlval"@ != "routethroughpatch"@);
}

/// Law: the parameters of a MIDI program change: its port and channel, the program, and whether it is routed through.
pub proof fn law_midi_program_change_parameters(outport: i32, channel: u8, val: u8, echo: bool)
    ensures
        event_parameter_value(Event::MIDIProgramChangeInput { outport, channel, val, echo }, "outport"@) == EventValue::Int(outport),
        event_parameter_value(Event::MIDIProgramChangeInput { outport, channel, val, echo }, "midichannel"@) == EventValue::Int(channel as i32),
        event_parameter_value(Event::MIDIProgramChangeInput { outport, channel, val, echo }, "programval"@) == EventValue::Int(val as i32),
        event_parameter_value(Event::MIDIProgramChangeInput { outport, channel, val, echo }, "routethroughpatch"@) == EventValue::Char(if echo { 1i8 } else { 0i8 }),
{
    reveal_strlit("outport");
    reveal_strlit("midichannel");
    reveal_strlit("programval");
    reveal_strlit("routethroughpatch");
    assert("outport"@.len() == 7);
    assert("midichannel"@.len() == 11);
    assert("programval"@.len() == 10);
    assert("routethroughpatch"@.len() == 17);
    assert("outport"@ != "midichannel"@);
    assert("outport"@ != "programval"@);
    assert("outport"@ != "routethroughpatch"@);
    assert("midichannel"@ != "programval"@);
    assert("midichannel"@ != "routethroughpatch"@);
    assert("programval"@ != "routethroughpatch"@);
}

/// Law: the parameters of MIDI channel pressure: its port and channel, the pressure, and whether it is routed through.
pub proof fn law_midi_channel_pressure_parameters(outport: i32, channel: u8, val: u8, echo: bool)
    ensures
        event_parameter_value(Event::MIDIChannelPressureInput { outport, channel, val, echo }, "outport"@) == EventValue::Int(outport),
        event_parameter_value(Event::MIDIChannelPressureInput { outport, channel, val, echo }, "midichannel"@) == EventValue::Int(channel as i32),
        event_parameter_value(Event::MIDIChannelPressureInput { outport, channel, val, echo }, "pressureval"@) == EventValue::Int(val as i32),
        event_parameter_value(Event::MIDIChannelPressureInput { outport, channel, val, echo }, "routethroughpatch"@) == EventValue::Char(if echo { 1i8 } else { 0i8 }),
{
    reveal_strlit("outport");
    reveal_strlit("midichannel");
    reveal_strlit("pressureval");
    reveal_strlit("routethroughpatch");
    assert("outport"@.len() == 7);
    assert("midichannel"@.len() == 11);
    assert("pressureval"@.len() == 11);
    assert("routethroughpatch"@.len() == 17);
    assert("outport"@ != "midichannel"@);
    assert("outport"@ != "pressureval"@);
    assert("outport"@ != "routethroughpatch"@);
    assert("midichannel"@[0] != "pressureval"@[0]);
    assert("midichannel"@ != "pressureval"@);
    assert("midichannel"@ != "routethroughpatch"@);
    assert("pressureval"@ != "routethroughpatch"@);
}

/// Law: the parameters of a MIDI pitch bend: its port and channel, the bend, and whether it is routed through.
pub proof fn law_midi_pitch_bend_parameters(outport: i32, channel: u8, val: i32, echo: bool)
    ensures
        event_parameter_value(Event::MIDIPitchBendInput { outport, channel, val, echo }, "outport"@) == EventValue::Int(outport),
        event_parameter_value(Event::MIDIPitchBendInput { outport, channel, val, echo }, "midichannel"@) == EventValue::Int(channel as i32),
        event_parameter_value(Event::MIDIPitchBendInput { outport, channel, val, echo }, "pitchval"@) == EventValue::Int(val),
        event_parameter_value(Event::MIDIPitchBendInput { outport, channel, val, echo }, "routethroughpatch"@) == EventValue::Char(if echo { 1i8 } else { 0i8 }),
{
    reveal_strlit("outport");
    reveal_strlit("midichannel");
    reveal_strlit("pitchval");
    reveal_strlit("routethroughpatch");
    assert("outport"@.len() == 7);
    assert("midichannel"@.len() == 11);
    assert("pitchval"@.len() == 8);
    assert("routethroughpatch"@.len() == 17);
    assert("outport"@ != "midichannel"@);
    assert("outport"@ != "pitchval"@);
    assert("outport"@ != "routethroughpatch"@);
    assert("midichannel"@ != "pitchval"@);
    assert("midichannel"@ != "routethroughpatch"@);
    assert("pitchval"@ != "routethroughpatch"@);
}

/// Law: the parameters of MIDI start or stop: its port and whether it starts.
pub proof fn law_midi_start_stop_parameters(outport: i32, start: bool)
    ensures
        event_parameter_value(Event::MIDIStartStopInput { outport, start }, "outport"@) == EventValue::Int(outport),
        event_parameter_value(Event::MIDIStartStopInput { outport, start }, "start"@) == EventValue::Char(if start { 1i8 } else { 0i8 }),
{
    reveal_strlit("outport");
    reveal_strlit("start");
    assert("outport"@.len() == 7);
    assert("start"@.len() == 5);
    assert("outport"@ != "start"@);
}
} // verus!
