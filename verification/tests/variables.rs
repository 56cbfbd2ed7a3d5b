use freewheeling::datatypes::{CoreDataType, Range, UserVariable};
use freewheeling::variables::{text_lt, ConfigVariableValue, VariableTable, MAX_CONFIG_VARIABLE_SNAPSHOT};

#[test]
fn variable_snapshot_is_sorted_typed_and_copies_values() {
    let mut cfg = VariableTable::new();
    cfg.set_float_variable_bits("zeta", 1.25f32.to_bits());
    cfg.set_int_variable("alpha", 42);
    let mut range = UserVariable::new();
    range.set_range(-2, 9);
    cfg.set_variable("middle", range);

    let snapshot = cfg.variable_snapshot();
    assert!(!snapshot.truncated);
    assert_eq!(
        snapshot.variables.iter().map(|v| v.name.as_str()).collect::<Vec<_>>(),
        vec!["alpha", "middle", "zeta"]
    );
    assert_eq!(snapshot.variables[0].type_, CoreDataType::Int);
    assert_eq!(snapshot.variables[0].value, ConfigVariableValue::Int(42));
    assert_eq!(snapshot.variables[1].value, ConfigVariableValue::Range(Range::new(-2, 9)));
    assert_eq!(snapshot.variables[2].value, ConfigVariableValue::Float(1.25f32.to_bits()));

    cfg.set_int_variable("alpha", 99);
    assert_eq!(snapshot.variables[0].value, ConfigVariableValue::Int(42));
}

#[test]
fn variable_snapshot_is_bounded_and_reports_truncation() {
    let mut cfg = VariableTable::new();
    for index in 0..=MAX_CONFIG_VARIABLE_SNAPSHOT {
        cfg.set_int_variable(&format!("var-{index:03}"), index as i32);
    }

    let snapshot = cfg.variable_snapshot();
    assert_eq!(snapshot.variables.len(), MAX_CONFIG_VARIABLE_SNAPSHOT);
    assert!(snapshot.truncated);
    assert_eq!(snapshot.variables[0].name, "var-000");
    assert_eq!(snapshot.variables.last().unwrap().name, "var-255");
}

#[test]
fn variables_are_set_replaced_and_listed() {
    let mut cfg = VariableTable::new();
    assert!(!cfg.has_variable("a"));
    assert_eq!(cfg.get_int("a"), None);
    cfg.set_int_variable("a", 5);
    cfg.set_int_variable("b", 6);
    cfg.set_int_variable("a", 7);
    assert!(cfg.has_variable("a"));
    assert_eq!(cfg.get_int("a"), Some(7));
    assert_eq!(cfg.get_float_bits("b"), Some(6.0f32.to_bits()));
    let mut names = cfg.list_variables();
    names.sort();
    assert_eq!(names, vec!["a".to_string(), "b".to_string()]);
    assert_eq!(cfg.get_variable("b").unwrap().as_i32(), 6);
    assert!(text_lt("ab", "b") && text_lt("a", "ab") && !text_lt("b", "ab") && !text_lt("x", "x"));
    assert!(text_lt("Z", "a"));
    let mut s = UserVariable::new();
    s.set_char(-3);
    cfg.set_variable("c", s);
    let snap = cfg.variable_snapshot();
    assert_eq!(snap.variables[2].value, ConfigVariableValue::Char(-3));
    let raw = UserVariable::with_name("r", CoreDataType::Invalid);
    cfg.set_variable("d", raw);
    assert_eq!(cfg.variable_snapshot().variables[3].value, ConfigVariableValue::Raw([0u8; 16]));
}

use freewheeling::core_dsp::Pulse;

#[test]
fn pulse_wraps() {
    let mut p = Pulse::new(4, 0);
    p.process_clock(4);
    assert!(p.take_wrapped());
    assert_eq!(p.curpos, 0);
}

#[test]
fn pulse_moves_stops_and_wraps_past_its_end() {
    let mut p = Pulse::new(10, 3);
    p.process_clock(4);
    assert_eq!((p.curpos, p.wrapped), (7, false));
    p.process_clock(25);
    assert_eq!(p.curpos, 2);
    assert!(p.take_wrapped());
    assert!(!p.take_wrapped());
    p.stopped = true;
    p.process_clock(5);
    assert_eq!(p.curpos, 2);
    p.wrap();
    assert_eq!(p.curpos, 10);
    p.set_pos(1);
    assert_eq!(p.curpos, 1);
    assert_eq!(f32::from_bits(Pulse::new(1, 0).metro_volume_bits), 0.1);
}
