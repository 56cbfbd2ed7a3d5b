use freewheeling::binding_registry::{
    arrange_bindings, bucket_for, load_bindings_section_xml, parse_binding_registry_xml, ConditionTarget,
    RegisteredBinding,
};
use freewheeling::datatypes::CoreDataType;
use freewheeling::event::EventType;

const SECTION: &str = "<interface><bindings>\
    <declare var=\"VAR_x\" type=\"int\" init=\"3\"/>\
    <binding input=\"key\" conditions=\"key=a and keydown=1 and VAR_x=2 and VAR_y=1 and nothing\" echo=\"1\" \
             output=\"trigger-loop\" parameters=\"loopid=4 and vol=1.5 and bogus=1\"/>\
    <binding input=\"midikey\" conditions=\"notenum=60\" output1=\"exit-freewheeling\" output2=\"video-show-layout\" \
             parameters2=\"layoutid=2\"/>\
    <x><binding input=\"key\" output=\"pulse-sync\"/></x>\
    </bindings><binding input=\"start-interface\" output=\"pulse-sync\"/></interface>";

fn target_name(t: &ConditionTarget) -> String {
    match t {
        ConditionTarget::Parameter(p) => format!("param:{}", p.name),
        ConditionTarget::Variable(v) => format!("var:{}", v),
    }
}

#[test]
fn bindings_section_reads_declarations_then_child_bindings() {
    let (decls, bindings) = load_bindings_section_xml(7, SECTION, &vec!["VAR_y".to_string()]).ok().unwrap();
    assert_eq!(decls.len(), 1);
    assert_eq!((decls[0].name.as_str(), decls[0].dtype, decls[0].init.as_deref()), ("VAR_x", CoreDataType::Int, Some("3")));
    assert_eq!(bindings.len(), 3);
    let key = &bindings[0];
    assert_eq!((key.input, key.output_event, key.echo, key.continued), (EventType::InputKey, EventType::TriggerLoop, true, false));
    let conds: Vec<(String, String, bool)> =
        key.conditions.iter().map(|c| (target_name(&c.target), c.expression.clone(), c.key_names)).collect();
    assert_eq!(conds, vec![
        ("param:key".to_string(), "a".to_string(), true),
        ("param:keydown".to_string(), "1".to_string(), false),
        ("var:VAR_x".to_string(), "2".to_string(), false),
        ("var:VAR_y".to_string(), "1".to_string(), false),
    ]);
    assert_eq!(key.bucket_expression.as_deref(), Some("a"));
    let params: Vec<(&str, &str)> = key.parameters.iter().map(|p| (p.param.name, p.expression.as_str())).collect();
    assert_eq!(params, vec![("loopid", "4"), ("vol", "1.5")]);

    let (first, second) = (&bindings[1], &bindings[2]);
    assert_eq!((first.output_event, first.continued, first.conditions.len()), (EventType::ExitSession, true, 1));
    assert_eq!((second.output_event, second.continued, second.conditions.len()), (EventType::VideoShowLayout, false, 0));
    assert!(first.bucket_expression.is_none());
    let params: Vec<(&str, &str)> = second.parameters.iter().map(|p| (p.param.name, p.expression.as_str())).collect();
    assert_eq!(params, vec![("layoutid", "2"), ("interfaceid", "7")]);
}

#[test]
fn all_bindings_of_a_document_and_their_errors() {
    let all = parse_binding_registry_xml(3, SECTION, &Vec::new()).ok().unwrap();
    assert_eq!(all.len(), 5);
    let last = &all[4];
    assert_eq!(last.input, EventType::StartInterface);
    assert_eq!(last.conditions.len(), 1);
    assert_eq!((target_name(&last.conditions[0].target), last.conditions[0].expression.as_str()), ("param:interfaceid".to_string(), "3"));
    // Without a declared VAR_x, its condition is dropped.
    assert_eq!(all[0].conditions.len(), 2);
    assert_eq!(
        load_bindings_section_xml(0, "<interface/>", &Vec::new()).err().unwrap(),
        "Missing <bindings> section"
    );
    assert_eq!(
        load_bindings_section_xml(0, "<i><bindings><declare var=\"v\" type=\"str\"/></bindings></i>", &Vec::new()).err().unwrap(),
        "Variable 'v' uses unsupported type 'str'"
    );
    assert_eq!(
        parse_binding_registry_xml(0, "<i><binding input=\"key\"/></i>", &Vec::new()).err().unwrap(),
        "Invalid binding: no output attribute"
    );
    assert!(parse_binding_registry_xml(0, "<i>", &Vec::new()).is_err());
}

#[test]
fn bindings_are_arranged_in_tables_and_buckets() {
    let (_, bindings) = load_bindings_section_xml(7, SECTION, &Vec::new()).ok().unwrap();
    let buckets: Vec<usize> = bindings.iter().map(|b: &RegisteredBinding| bucket_for(b, Some(97))).collect();
    assert_eq!(buckets, vec![97, 16, 16]);
    assert_eq!(bucket_for(&bindings[0], None), 512);
    assert_eq!(bucket_for(&bindings[0], Some(-4)), 512);
    assert_eq!(bucket_for(&bindings[0], Some(1000)), 1000 % 512);
    let registry = arrange_bindings(bindings, &vec![Some(97), None, None]);
    assert_eq!(registry.tables.len(), 2);
    let keys = &registry.tables[0];
    assert_eq!(keys.input, EventType::InputKey);
    assert_eq!(keys.indexed_param.map(|p| p.name), Some("key"));
    assert_eq!(keys.buckets.len(), 513);
    assert_eq!(keys.buckets[97].len(), 1);
    let midi = &registry.tables[1];
    assert_eq!(midi.input, EventType::InputMIDIKey);
    assert_eq!(midi.buckets.len(), 17);
    assert_eq!(midi.buckets[16].len(), 2);
    assert_eq!(midi.buckets[16][0].output_event, EventType::ExitSession);
}
