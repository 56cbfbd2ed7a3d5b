use freewheeling::bound_event::{
    event_output_schema, instantiate_bound_event, BindingError, BoundArg, ParamKind, ResolvedBinding,
    StoredParameterValue,
};
use freewheeling::datatypes::{CoreDataType, Range, UserVariable};
use freewheeling::event::EventType;

fn binding(out: Option<EventType>, params: Vec<(&str, StoredParameterValue)>) -> ResolvedBinding {
    ResolvedBinding {
        output_event: out,
        parameters: params.into_iter().map(|(n, v)| (n.to_string(), v)).collect(),
    }
}

fn int_var(name: &str, value: i32) -> UserVariable {
    let mut v = UserVariable::with_name(name, CoreDataType::Int);
    v.set_int(value);
    v
}

#[test]
fn gosub_reads_its_parameters_in_order_and_coerces_them() {
    let b = binding(
        Some(EventType::GoSub),
        vec![
            ("param2", StoredParameterValue::Int(2)),
            ("sub", StoredParameterValue::Float(2.75f32.to_bits())),
            ("param1", StoredParameterValue::Float(1.5f32.to_bits())),
            ("param3", StoredParameterValue::Long(-3)),
            ("sub", StoredParameterValue::Int(9)),
        ],
    );
    let ev = instantiate_bound_event(&b).ok().unwrap();
    assert_eq!(ev.event_type, EventType::GoSub);
    assert_eq!(ev.args.len(), 4);
    assert!(matches!(ev.args[0], BoundArg::Int(2)));
    assert!(matches!(ev.args[1], BoundArg::Float(b) if b == 1.5f32.to_bits()));
    assert!(matches!(ev.args[2], BoundArg::Float(b) if b == 2.0f32.to_bits()));
    assert!(matches!(ev.args[3], BoundArg::Float(b) if b == (-3.0f32).to_bits()));
}

#[test]
fn integer_parameters_wrap_and_saturate_like_casts() {
    let b = binding(
        Some(EventType::SwapSnapshots),
        vec![
            ("snapid1", StoredParameterValue::Long(0x1_0000_0005)),
            ("snapid2", StoredParameterValue::Float(1.0e12f32.to_bits())),
        ],
    );
    let ev = instantiate_bound_event(&b).ok().unwrap();
    assert!(matches!(ev.args[0], BoundArg::Int(5)));
    assert!(matches!(ev.args[1], BoundArg::Int(i32::MAX)));
    let c = binding(Some(EventType::SetSyncType), vec![("stype", StoredParameterValue::Char(-1))]);
    assert!(matches!(instantiate_bound_event(&c).ok().unwrap().args[0], BoundArg::Bool(true)));
}

#[test]
fn set_variable_has_optional_parameters() {
    let b = binding(
        Some(EventType::SetVariable),
        vec![
            ("var", StoredParameterValue::VariableRef(Some("VAR_x".to_string()))),
            ("value", StoredParameterValue::Variable(int_var("v", 42))),
            ("maxjumpcheck", StoredParameterValue::Range(Range::new(1, 2))),
        ],
    );
    let ev = instantiate_bound_event(&b).ok().unwrap();
    assert_eq!(ev.event_type, EventType::SetVariable);
    assert!(matches!(&ev.args[0], BoundArg::VariableRef(s) if s == "VAR_x"));
    match &ev.args[1] {
        BoundArg::Variable(v) => {
            assert_eq!(v.get_name(), Some("v"));
            assert_eq!(v.as_i32(), 42);
        },
        _ => panic!("value is not a variable"),
    }
    assert!(matches!(ev.args[2], BoundArg::Bool(false)));
    match &ev.args[3] {
        BoundArg::Variable(v) => {
            assert_eq!(v.get_type(), CoreDataType::Invalid);
            assert_eq!(v.get_name(), None);
        },
        _ => panic!("maxjump is not a variable"),
    }
}

#[test]
fn binding_errors_name_what_failed() {
    let missing = binding(Some(EventType::TriggerLoop), vec![("loopid", StoredParameterValue::Int(1))]);
    assert!(matches!(instantiate_bound_event(&missing), Err(BindingError::MissingParameter(ParamKind::Float, n)) if n == "vol"));
    let flag = binding(Some(EventType::VideoFullScreen), vec![]);
    assert!(matches!(instantiate_bound_event(&flag), Err(BindingError::MissingParameter(ParamKind::Int, n)) if n == "fullscreen"));
    let range = binding(Some(EventType::TriggerLoop), vec![("loopid", StoredParameterValue::Range(Range::new(0, 3)))]);
    assert!(matches!(
        instantiate_bound_event(&range),
        Err(BindingError::NotCoercible(ParamKind::Int, n, StoredParameterValue::Range(r))) if n == "loopid" && r.lo == 0 && r.hi == 3
    ));
    let unresolved = binding(Some(EventType::ToggleVariable), vec![("var", StoredParameterValue::VariableRef(None))]);
    assert!(matches!(instantiate_bound_event(&unresolved), Err(BindingError::UnresolvedVariableRef(n)) if n == "var"));
    let not_var = binding(Some(EventType::LogFaderVolToLinear), vec![
        ("var", StoredParameterValue::VariableRef(Some("a".to_string()))),
        ("fadervol", StoredParameterValue::Int(3)),
    ]);
    assert!(matches!(instantiate_bound_event(&not_var), Err(BindingError::MissingParameter(ParamKind::Variable, n)) if n == "fadervol"));
    assert!(matches!(instantiate_bound_event(&binding(None, vec![])), Err(BindingError::MissingOutputEvent)));
    assert!(matches!(
        instantiate_bound_event(&binding(Some(EventType::InputKey), vec![])),
        Err(BindingError::NotConstructible(EventType::InputKey))
    ));
}

#[test]
fn events_without_parameters_build_directly() {
    let ev = instantiate_bound_event(&binding(Some(EventType::PulseSync), vec![])).ok().unwrap();
    assert_eq!(ev.event_type, EventType::PulseSync);
    assert!(ev.args.is_empty());
    let schema = event_output_schema(EventType::VideoShowLayout).unwrap();
    assert_eq!(schema, vec![
        ("interfaceid", ParamKind::Int),
        ("layoutid", ParamKind::Int),
        ("show", ParamKind::Bool),
        ("hideothers", ParamKind::Bool),
    ]);
    assert!(event_output_schema(EventType::InputMIDIKey).is_none());
}

use freewheeling::binding_plan::{binding_input, binding_outputs, declaration, text_contains};
use freewheeling::xml::XmlAttribute;

fn attrs(list: &[(&str, &str)]) -> Vec<XmlAttribute> {
    list.iter()
        .map(|(n, v)| XmlAttribute { namespace: None, name: n.to_string(), value: v.to_string() })
        .collect()
}

#[test]
fn binding_input_is_checked() {
    let ok = binding_input(&attrs(&[("input", "key"), ("echo", "1"), ("conditions", "key=VAR_pckeyrange and x=1")]))
        .ok()
        .unwrap();
    assert_eq!(ok.input, EventType::InputKey);
    assert!(ok.echo);
    assert!(ok.pckeyboard_loop_ids);
    let plain = binding_input(&attrs(&[("input", "midikey"), ("echo", "0"), ("conditions", "key=VAR_pckeyrange")]))
        .ok()
        .unwrap();
    assert_eq!(plain.input, EventType::InputMIDIKey);
    assert!(!plain.echo);
    assert!(!plain.pckeyboard_loop_ids);
    assert_eq!(binding_input(&attrs(&[("output", "exit-freewheeling")])).err().unwrap(), "Invalid binding: missing input attribute");
    assert_eq!(binding_input(&attrs(&[("input", "nothing")])).err().unwrap(), "Invalid input event 'nothing'");
    assert_eq!(
        binding_input(&attrs(&[("input", "trigger-loop")])).err().unwrap(),
        "Event 'trigger-loop' cannot be used as an input"
    );
}

#[test]
fn binding_outputs_follow_the_numbered_chain() {
    let outs = binding_outputs(&attrs(&[
        ("output1", "trigger-loop"),
        ("parameters1", "loopid=1"),
        ("output2", "exit-freewheeling"),
        ("output4", "pulse-sync"),
    ]))
    .ok()
    .unwrap();
    assert_eq!(outs.len(), 2);
    assert_eq!(outs[0].output_event, EventType::TriggerLoop);
    assert_eq!(outs[0].parameters.as_deref(), Some("loopid=1"));
    assert!(outs[0].continued);
    assert_eq!(outs[1].output_event, EventType::ExitSession);
    assert_eq!(outs[1].parameters, None);
    assert!(!outs[1].continued);
    let single = binding_outputs(&attrs(&[("output", "pulse-sync"), ("parameters", "a=1")])).ok().unwrap();
    assert_eq!(single.len(), 1);
    assert_eq!(single[0].parameters.as_deref(), Some("a=1"));
    assert!(!single[0].continued);
    assert_eq!(binding_outputs(&attrs(&[("output2", "pulse-sync")])).err().unwrap(), "Invalid binding: no output attribute");
    assert_eq!(
        binding_outputs(&attrs(&[("output", "pulse-sync"), ("output1", "bogus")])).err().unwrap(),
        "Invalid output event 'bogus'"
    );
    assert!(text_contains("a key=VAR_pckeyrange", "key=VAR"));
    assert!(!text_contains("key", "keys"));
}

use freewheeling::bound_event::store_parameter_value;
use freewheeling::expression_text::split_expression;

#[test]
fn expressions_split_at_operators_after_the_first_character() {
    let (start, ops) = split_expression("-3+VAR_x * 2");
    assert_eq!(start, "-3");
    assert_eq!(ops, vec![('+', "VAR_x ".to_string()), ('*', " 2".to_string())]);
    let (whole, none) = split_expression("loopid");
    assert_eq!(whole, "loopid");
    assert!(none.is_empty());
    let (a, trailing) = split_expression("a-");
    assert_eq!(a, "a");
    assert_eq!(trailing, vec![('-', String::new())]);
    let (slash, div) = split_expression("8/2/2");
    assert_eq!(slash, "8");
    assert_eq!(div, vec![('/', "2".to_string()), ('/', "2".to_string())]);
}

#[test]
fn parameter_values_are_kept_in_the_parameter_type() {
    let v = int_var("VAR_n", 7);
    assert!(matches!(store_parameter_value(CoreDataType::Float, &v), StoredParameterValue::Float(b) if b == 7.0f32.to_bits()));
    assert!(matches!(store_parameter_value(CoreDataType::Char, &v), StoredParameterValue::Char(7)));
    assert!(matches!(store_parameter_value(CoreDataType::Long, &v), StoredParameterValue::Long(7)));
    assert!(matches!(store_parameter_value(CoreDataType::Range, &v), StoredParameterValue::Range(r) if r.lo == 7 && r.hi == 7));
    assert!(matches!(store_parameter_value(CoreDataType::VariableRef, &v), StoredParameterValue::VariableRef(Some(n)) if n == "VAR_n"));
    assert!(matches!(store_parameter_value(CoreDataType::Invalid, &v), StoredParameterValue::VariableRef(None)));
    match store_parameter_value(CoreDataType::Variable, &v) {
        StoredParameterValue::Variable(c) => assert_eq!((c.get_name(), c.as_i32()), (Some("VAR_n"), 7)),
        _ => panic!("not a variable"),
    }
    let mut f = UserVariable::new();
    f.set_float_bits(2.5f32.to_bits());
    assert!(matches!(store_parameter_value(CoreDataType::Int, &f), StoredParameterValue::Int(2)));
    assert!(matches!(store_parameter_value(CoreDataType::Float, &f), StoredParameterValue::Float(b) if b == 2.5f32.to_bits()));
}

use freewheeling::expression_text::assignments;

#[test]
fn conditions_split_into_assignments() {
    let a = assignments("key=VAR_pckeyrange and  loopid = 3 and junk and x=");
    assert_eq!(a, vec![
        ("key".to_string(), "VAR_pckeyrange".to_string()),
        ("loopid".to_string(), "3".to_string()),
        ("x".to_string(), String::new()),
    ]);
    assert_eq!(assignments("a=b=c"), vec![("a".to_string(), "b=c".to_string())]);
    assert!(assignments("").is_empty());
    assert_eq!(assignments(" \tv =\t1 "), vec![("\tv".to_string(), "\t1".to_string())]);
}

#[test]
fn declarations_name_a_variable_and_its_type() {
    let d = declaration(&attrs(&[("var", "VAR_x"), ("type", "range"), ("init", "1>4")])).ok().unwrap();
    assert_eq!(d.name, "VAR_x");
    assert_eq!(d.dtype, CoreDataType::Range);
    assert_eq!(d.init.as_deref(), Some("1>4"));
    let plain = declaration(&attrs(&[("type", "int"), ("var", "n")])).ok().unwrap();
    assert_eq!((plain.name.as_str(), plain.dtype, plain.init), ("n", CoreDataType::Int, None));
    assert_eq!(declaration(&attrs(&[("type", "int")])).err().unwrap(), "Variable declaration is missing 'var'");
    assert_eq!(declaration(&attrs(&[("var", "v")])).err().unwrap(), "Variable 'v' is missing type");
    assert_eq!(
        declaration(&attrs(&[("var", "v"), ("type", "double")])).err().unwrap(),
        "Variable 'v' uses unsupported type 'double'"
    );
}
