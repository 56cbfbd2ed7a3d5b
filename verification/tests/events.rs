use freewheeling::event::EventParameter;
use freewheeling::event_params::{event_bucket_index, first_indexed_param, read_event_parameter};
use freewheeling::datatypes::CoreDataType;
use freewheeling::event::{Event, EventType};

#[test]
fn events_know_their_type_and_parameters() {
    let key = Event::KeyInput { down: true, keysym: 97, unicode: 97, presslen: 0 };
    assert_eq!(key.get_type(), EventType::InputKey);
    assert_eq!(key.get_num_params(), 3);
    let p = key.get_param(1).unwrap();
    assert_eq!((p.name, p.dtype, p.max_index), ("key", CoreDataType::Int, 512));
    assert!(key.get_param(3).is_none());
    assert_eq!(Event::NoEvent.get_type(), EventType::NoEvent);
    assert_eq!(Event::NoEvent.get_num_params(), 0);
    let sub = Event::GoSub { sub: 2, param1_bits: 1.0f32.to_bits(), param2_bits: 0, param3_bits: 0 };
    assert_eq!(sub.get_type(), EventType::GoSub);
    assert_eq!(Event::MIDITuneRequestInput.get_type(), EventType::InputMIDITuneRequest);
}

use freewheeling::event::{EventListener, EventProducer};
use freewheeling::event_manager::EventManager;
use std::cell::RefCell;
use std::rc::Rc;

struct Recorder {
    tag: &'static str,
    seen: Rc<RefCell<Vec<(&'static str, EventType)>>>,
}

impl EventListener for Recorder {
    fn receive_event(&mut self, ev: &Event, _from: &dyn EventProducer) {
        self.seen.borrow_mut().push((self.tag, ev.get_type()));
    }
}

#[test]
fn pending_events_reach_their_listeners_in_order() {
    let seen = Rc::new(RefCell::new(Vec::new()));
    let mut m = EventManager::new();
    m.listen(Box::new(Recorder { tag: "a", seen: seen.clone() }), EventType::StartSession);
    m.listen(Box::new(Recorder { tag: "b", seen: seen.clone() }), EventType::ExitSession);
    m.listen(Box::new(Recorder { tag: "c", seen: seen.clone() }), EventType::StartSession);
    m.post_event(Event::ExitSession);
    m.post_event(Event::StartSession);
    m.post_event(Event::ToggleDiskOutput);
    m.process_pending();
    assert_eq!(
        *seen.borrow(),
        vec![("b", EventType::ExitSession), ("a", EventType::StartSession), ("c", EventType::StartSession)]
    );
    m.process_pending();
    assert_eq!(seen.borrow().len(), 3);
}

#[test]
fn a_full_queue_turns_events_away_and_counts_them() {
    let mut m = EventManager::with_capacity(0);
    assert!(m.try_post_event(Event::StartSession).is_ok());
    assert!(matches!(m.try_post_event(Event::ExitSession), Err(Event::ExitSession)));
    m.post_event(Event::ExitSession);
    assert_eq!(m.dropped_events(), 2);
    m.process_pending();
    assert!(m.try_post_event(Event::ExitSession).is_ok());
}

#[test]
fn event_names_edge_cases() {
    assert_eq!(EventType::from_name(""), None);
    assert_eq!(EventType::from_name("pulse-sync"), Some(EventType::PulseSync));
}

#[test]
fn event_parameters_read_as_variables() {
    let key = Event::KeyInput { down: true, keysym: 97, unicode: 65, presslen: 0 };
    let p = |name: &'static str| EventParameter { name, dtype: CoreDataType::Int, max_index: -1 };
    let v = read_event_parameter(&key, &p("keydown"));
    assert_eq!(v.get_type(), CoreDataType::Char);
    assert_eq!(v.as_i32(), 1);
    let v = read_event_parameter(&key, &p("key"));
    assert_eq!(v.get_type(), CoreDataType::Int);
    assert_eq!(v.as_i32(), 97);
    let v = read_event_parameter(&key, &p("nothing"));
    assert_eq!(v.get_type(), CoreDataType::Invalid);
    let midi = Event::MIDIKeyInput { outport: 2, channel: 9, notenum: 60, vel: 100, down: false, echo: true };
    assert_eq!(read_event_parameter(&midi, &p("velocity")).as_i32(), 100);
    assert_eq!(read_event_parameter(&midi, &p("keydown")).as_i32(), 0);
    let vol = Event::SetInVolume { input: 1, vol_bits: 0.5f32.to_bits(), fadervol_bits: 0.25f32.to_bits() };
    let v = read_event_parameter(&vol, &p("vol"));
    assert_eq!(v.get_type(), CoreDataType::Float);
    assert_eq!(v.as_i32(), 0);
    assert_eq!(read_event_parameter(&vol, &p("input")).as_i32(), 1);
    assert_eq!(read_event_parameter(&Event::ExitSession, &p("x")).get_type(), CoreDataType::Invalid);
}

#[test]
fn bindings_are_bucketed_by_the_indexed_parameter() {
    let key = Event::KeyInput { down: true, keysym: 600, unicode: 0, presslen: 0 };
    let p = first_indexed_param(&key).unwrap();
    assert_eq!(p.name, "key");
    assert_eq!(p.max_index, 512);
    assert_eq!(event_bucket_index(&key, Some(p)), Some(88));
    let neg = Event::KeyInput { down: true, keysym: -3, unicode: 0, presslen: 0 };
    assert_eq!(event_bucket_index(&neg, Some(p)), Some(512));
    assert_eq!(event_bucket_index(&key, None), None);
    assert_eq!(first_indexed_param(&Event::ExitSession).map(|q| q.name), None);
}

#[test]
fn midi_route_parameters_are_available_to_binding_expressions() {
    let key = Event::MIDIKeyInput { outport: 3, channel: 2, notenum: 64, vel: 90, down: true, echo: true };
    assert_eq!(read_event_parameter(&key, &key.get_param(0).unwrap()).as_i32(), 3);
    assert_eq!(read_event_parameter(&key, &key.get_param(5).unwrap()).as_i32(), 1);

    let controller = Event::MIDIControllerInput { outport: 4, channel: 1, ctrl: 7, val: 99, echo: false };
    assert_eq!(read_event_parameter(&controller, &controller.get_param(0).unwrap()).as_i32(), 4);
    assert_eq!(read_event_parameter(&controller, &controller.get_param(4).unwrap()).as_i32(), 0);

    let clock = Event::MIDIClockInput { outport: 2 };
    assert_eq!(read_event_parameter(&clock, &clock.get_param(0).unwrap()).as_i32(), 2);
    let transport = Event::MIDIStartStopInput { outport: 4, start: true };
    assert_eq!(read_event_parameter(&transport, &transport.get_param(0).unwrap()).as_i32(), 4);
    assert_eq!(read_event_parameter(&transport, &transport.get_param(1).unwrap()).as_i32(), 1);
}
