//! The bindings of a configuration document, each with what it tests and
//! what it sends, and the tables that hold them by input event type and
//! bucket.  The conditions and parameters of a binding are kept as the
//! expression texts written in the document; evaluating them (their
//! values may be floats, and key names come from SDL) is left to the
//! caller, who hands back the value each binding's bucket is chosen by.

use vstd::prelude::*;
use crate::binding_plan::{
    Declaration, binding_input, binding_input_spec, binding_outputs, binding_outputs_spec, declaration,
    declaration_spec,
};
use crate::datatypes::CoreDataType;
use crate::event::{EventParameter, EventType, ParamValue, event_parameters, params_view};
use crate::event_params::{bucket_index_spec, first_indexed_from};
use crate::expression_text::{assignments, assignments_in, assignments_view};
use crate::runtime_config::opt_text;
use crate::text::{decimal_int, push_decimal_i64, str_eq, string_from};
use crate::xml::{XmlAttribute, XmlAttributeValue, XmlNode, XmlNodeValue, attribute_in, attribute_spec, nodes_view,
    parse_xml_document, xml_document};

verus! {

/// What a condition tests: a parameter of the input event, or a
/// configuration variable.
pub enum ConditionTarget {
    Parameter(EventParameter),
    Variable(String),
}

/// A condition of a binding: its target must equal the value of the
/// expression (whose key names are read as keys when `key_names`).
pub struct BindingCondition {
    pub target: ConditionTarget,
    pub expression: String,
    pub key_names: bool,
}

/// A parameter that a binding sets on the event it sends, to the value of
/// the expression.
pub struct BindingParameter {
    pub param: EventParameter,
    pub expression: String,
    pub key_names: bool,
}

/// One binding of an input event to an output event.  The conditions and
/// the echo belong to the first output of a chain; every output but the
/// last is continued by the next.  `bucket_expression` is the expression
/// that the input's indexing parameter is tested against, if any.
pub struct RegisteredBinding {
    pub input: EventType,
    pub output_event: EventType,
    pub conditions: Vec<BindingCondition>,
    pub parameters: Vec<BindingParameter>,
    pub echo: bool,
    pub continued: bool,
    pub pckeyboard_loop_ids: bool,
    pub bucket_expression: Option<String>,
}

pub enum TargetValue {
    Parameter(ParamValue),
    Variable(Seq<char>),
}

pub type ConditionValue = (TargetValue, Seq<char>, bool);

pub type ParameterValue = (ParamValue, Seq<char>, bool);

/// Plain value of a binding.
pub struct BindingValue {
    pub input: EventType,
    pub output_event: EventType,
    pub conditions: Seq<ConditionValue>,
    pub parameters: Seq<ParameterValue>,
    pub echo: bool,
    pub continued: bool,
    pub pckeyboard_loop_ids: bool,
    pub bucket_expression: Option<Seq<char>>,
}

pub open spec fn condition_value(c: BindingCondition) -> ConditionValue {
    (
        match c.target {
            ConditionTarget::Parameter(p) => TargetValue::Parameter(p@),
            ConditionTarget::Variable(v) => TargetValue::Variable(v@),
        },
        c.expression@,
        c.key_names,
    )
}

pub open spec fn parameter_value(p: BindingParameter) -> ParameterValue {
    (p.param@, p.expression@, p.key_names)
}

pub open spec fn binding_value(b: RegisteredBinding) -> BindingValue {
    BindingValue {
        input: b.input,
        output_event: b.output_event,
        conditions: b.conditions@.map_values(|c: BindingCondition| condition_value(c)),
        parameters: b.parameters@.map_values(|p: BindingParameter| parameter_value(p)),
        echo: b.echo,
        continued: b.continued,
        pckeyboard_loop_ids: b.pckeyboard_loop_ids,
        bucket_expression: opt_text(b.bucket_expression),
    }
}

pub open spec fn bindings_view(bs: Seq<RegisteredBinding>) -> Seq<BindingValue> {
    bs.map_values(|b: RegisteredBinding| binding_value(b))
}

pub open spec fn names_view(vs: Seq<String>) -> Seq<Seq<char>> {
    vs.map_values(|v: String| v@)
}

/// The first of `ps` (from position `i` on) named `name`.
pub open spec fn param_named_from(ps: Seq<ParamValue>, name: Seq<char>, i: int) -> Option<ParamValue>
    decreases ps.len() - i,
{
    if i < 0 || i >= ps.len() {
        None
    } else if ps[i].0 == name {
        Some(ps[i])
    } else {
        param_named_from(ps, name, i + 1)
    }
}

/// The name of the parameter of `ps` that indexes bindings, if any.
pub open spec fn indexed_name(ps: Seq<ParamValue>) -> Option<Seq<char>> {
    match first_indexed_from(ps, 0) {
        Some(k) => Some(ps[k].0),
        None => None,
    }
}

/// The conditions made by the first `k` assignments of a binding whose
/// input has parameters `ips`: an assignment to a parameter tests it, one
/// to a known variable tests the variable, others are ignored.  Also gives
/// the expression the indexing parameter is tested against (the last one)
/// and whether the interface was tested.
pub open spec fn conditions_upto(
    asg: Seq<(Seq<char>, Seq<char>)>,
    ips: Seq<ParamValue>,
    vars: Seq<Seq<char>>,
    k: nat,
) -> (Seq<ConditionValue>, Option<Seq<char>>, bool)
    decreases k,
{
    if k == 0 {
        (Seq::empty(), None, false)
    } else {
        let prev = conditions_upto(asg, ips, vars, (k - 1) as nat);
        let l = asg[k - 1].0;
        let r = asg[k - 1].1;
        match param_named_from(ips, l, 0) {
            Some(p) => (
                prev.0.push((TargetValue::Parameter(p), r, l == "key"@)),
                if indexed_name(ips) == Some(l) {
                    Some(r)
                } else {
                    prev.1
                },
                prev.2 || l == "interfaceid"@,
            ),
            None => if vars.contains(l) {
                (prev.0.push((TargetValue::Variable(l), r, false)), prev.1, prev.2)
            } else {
                prev
            },
        }
    }
}

/// The conditions of a binding with conditions text `text`, and the
/// expression its bucket is chosen by: those of the assignments, then, if
/// the interface was not tested and the input has an interface
/// parameter, a test that it is the binding's interface `iid`.
pub open spec fn conditions_spec(text: Option<Seq<char>>, ips: Seq<ParamValue>, vars: Seq<Seq<char>>, iid: i32) -> (
    Seq<ConditionValue>,
    Option<Seq<char>>,
) {
    let asg = match text {
        Some(t) => assignments_in(t),
        None => Seq::empty(),
    };
    let st = conditions_upto(asg, ips, vars, asg.len());
    if !st.2 {
        match param_named_from(ips, "interfaceid"@, 0) {
            Some(p) => (
                st.0.push((TargetValue::Parameter(p), decimal_int(iid as int), false)),
                if indexed_name(ips) == Some("interfaceid"@) {
                    Some(decimal_int(iid as int))
                } else {
                    st.1
                },
            ),
            None => (st.0, st.1),
        }
    } else {
        (st.0, st.1)
    }
}

/// The parameters set by the first `k` assignments to parameters of the
/// output event (with parameters `ops`); others are ignored.  Also gives
/// whether the interface was set.
pub open spec fn parameters_upto(asg: Seq<(Seq<char>, Seq<char>)>, ops: Seq<ParamValue>, k: nat) -> (
    Seq<ParameterValue>,
    bool,
)
    decreases k,
{
    if k == 0 {
        (Seq::empty(), false)
    } else {
        let prev = parameters_upto(asg, ops, (k - 1) as nat);
        let l = asg[k - 1].0;
        match param_named_from(ops, l, 0) {
            Some(p) => (prev.0.push((p, asg[k - 1].1, l == "key"@)), prev.1 || l == "interfaceid"@),
            None => prev,
        }
    }
}

/// The parameters an output sets from its parameters text: those of the
/// assignments, then, if the interface was not set and the output has an
/// interface parameter, the binding's interface `iid`.
pub open spec fn parameters_spec(text: Option<Seq<char>>, ops: Seq<ParamValue>, iid: i32) -> Seq<ParameterValue> {
    let asg = match text {
        Some(t) => assignments_in(t),
        None => Seq::empty(),
    };
    let st = parameters_upto(asg, ops, asg.len());
    if !st.1 {
        match param_named_from(ops, "interfaceid"@, 0) {
            Some(p) => st.0.push((p, decimal_int(iid as int), false)),
            None => st.0,
        }
    } else {
        st.0
    }
}

/// The bindings a `<binding>` element (its attributes) of interface `iid`
/// makes, one per output, given the known variables.
pub open spec fn binding_spec(attrs: Seq<XmlAttributeValue>, iid: i32, vars: Seq<Seq<char>>) -> Result<
    Seq<BindingValue>,
    Seq<char>,
> {
    match binding_input_spec(attrs) {
        Err(e) => Err(e),
        Ok(inp) => {
            let ips = event_parameters(inp.0);
            let conds = conditions_spec(attribute_spec(attrs, "conditions"@), ips, vars, iid);
            match binding_outputs_spec(attrs) {
                Err(e) => Err(e),
                Ok(outs) => Ok(
                    Seq::new(
                        outs.len(),
                        |k: int|
                            BindingValue {
                                input: inp.0,
                                output_event: outs[k].0,
                                conditions: if k == 0 {
                                    conds.0
                                } else {
                                    Seq::empty()
                                },
                                parameters: parameters_spec(outs[k].1, event_parameters(outs[k].0), iid),
                                echo: k == 0 && inp.1,
                                continued: k + 1 < outs.len(),
                                pckeyboard_loop_ids: inp.2,
                                bucket_expression: conds.1,
                            },
                    ),
                ),
            }
        },
    }
}

/// The first parameter of `ps` named `name`.
fn find_param(ps: &Vec<EventParameter>, name: &str) -> (r: Option<EventParameter>)
    ensures
        match param_named_from(params_view(ps@), name@, 0) {
            Some(p) => r matches Some(q) && q@ == p,
            None => r is None,
        },
{
    let ghost pv = params_view(ps@);
    let mut i: usize = 0;
    while i < ps.len()
        invariant
            i <= ps@.len(),
            pv == params_view(ps@),
            param_named_from(pv, name@, 0) == param_named_from(pv, name@, i as int),
        decreases ps@.len() - i,
    {
        assert(pv[i as int] == ps@[i as int]@);
        if str_eq(ps[i].name, name) {
            return Some(ps[i]);
        }
        i = i + 1;
    }
    None
}

/// The parameter of `ps` that indexes bindings, if any.
fn indexing_param(ps: &Vec<EventParameter>) -> (r: Option<EventParameter>)
    ensures
        match first_indexed_from(params_view(ps@), 0) {
            Some(k) => r matches Some(q) && q@ == params_view(ps@)[k],
            None => r is None,
        },
{
    let ghost pv = params_view(ps@);
    let mut i: usize = 0;
    while i < ps.len()
        invariant
            i <= ps@.len(),
            pv == params_view(ps@),
            first_indexed_from(pv, 0) == first_indexed_from(pv, i as int),
        decreases ps@.len() - i,
    {
        assert(pv[i as int] == ps@[i as int]@);
        if ps[i].max_index >= 0 {
            return Some(ps[i]);
        }
        i = i + 1;
    }
    None
}

/// Whether `name` is among `vars`.
fn known_variable(vars: &Vec<String>, name: &str) -> (r: bool)
    ensures
        r == names_view(vars@).contains(name@),
{
    let ghost nv = names_view(vars@);
    let mut i: usize = 0;
    while i < vars.len()
        invariant
            i <= vars@.len(),
            nv == names_view(vars@),
            forall|j: int| 0 <= j < i ==> nv[j] != name@,
        decreases vars@.len() - i,
    {
        if str_eq(vars[i].as_str(), name) {
            assert(nv[i as int] == name@);
            return true;
        }
        i = i + 1;
    }
    false
}

fn decimal_text(v: i32) -> (s: String)
    ensures
        s@ == decimal_int(v as int),
{
    let mut s = String::new();
    push_decimal_i64(&mut s, v as i64);
    assert(s@ =~= decimal_int(v as int));
    s
}

/// The conditions of a binding (see `conditions_spec`).
fn binding_conditions(text: Option<&str>, ips: &Vec<EventParameter>, vars: &Vec<String>, iid: i32) -> (r: (
    Vec<BindingCondition>,
    Option<String>,
))
    ensures
        ({
            let c = conditions_spec(
                match text {
                    Some(t) => Some(t@),
                    None => None,
                },
                params_view(ips@),
                names_view(vars@),
                iid,
            );
            &&& r.0@.map_values(|x: BindingCondition| condition_value(x)) == c.0
            &&& opt_text(r.1) == c.1
        }),
{
    let ghost pv = params_view(ips@);
    let asg = match text {
        Some(t) => assignments(t),
        None => Vec::new(),
    };
    let ghost av = assignments_view(asg@);
    assert(av == match text {
        Some(t) => assignments_in(t@),
        None => Seq::<(Seq<char>, Seq<char>)>::empty(),
    }) by {
        if text is None {
            assert(av =~= Seq::<(Seq<char>, Seq<char>)>::empty());
        }
    }
    let indexed = indexing_param(ips);
    let mut conds: Vec<BindingCondition> = Vec::new();
    let mut bucket: Option<String> = None;
    let mut iface = false;
    let mut k: usize = 0;
    assert(conds@.map_values(|x: BindingCondition| condition_value(x)) =~= Seq::<ConditionValue>::empty());
    while k < asg.len()
        invariant
            k <= asg@.len(),
            pv == params_view(ips@),
            av == assignments_view(asg@),
            match first_indexed_from(pv, 0) {
                Some(j) => indexed matches Some(q) && q@ == pv[j],
                None => indexed is None,
            },
            conditions_upto(av, pv, names_view(vars@), k as nat) == (
                conds@.map_values(|x: BindingCondition| condition_value(x)),
                opt_text(bucket),
                iface,
            ),
        decreases asg@.len() - k,
    {
        let l = asg[k].0.as_str();
        let r = asg[k].1.as_str();
        assert(av[k as int] == (l@, r@));
        let ghost before = conds@.map_values(|x: BindingCondition| condition_value(x));
        match find_param(ips, l) {
            Some(p) => {
                let c = BindingCondition {
                    target: ConditionTarget::Parameter(p),
                    expression: string_from(r),
                    key_names: str_eq(l, "key"),
                };
                conds.push(c);
                assert(conds@.map_values(|x: BindingCondition| condition_value(x)) =~= before.push(condition_value(c)));
                let is_indexed = match indexed {
                    Some(q) => str_eq(q.name, l),
                    None => false,
                };
                assert(is_indexed == (indexed_name(pv) == Some(l@)));
                if is_indexed {
                    bucket = Some(string_from(r));
                }
                if str_eq(l, "interfaceid") {
                    iface = true;
                }
            },
            None => {
                if known_variable(vars, l) {
                    let c = BindingCondition {
                        target: ConditionTarget::Variable(string_from(l)),
                        expression: string_from(r),
                        key_names: false,
                    };
                    conds.push(c);
                    assert(conds@.map_values(|x: BindingCondition| condition_value(x)) =~= before.push(
                        condition_value(c),
                    ));
                }
            },
        }
        k = k + 1;
    }
    if !iface {
        match find_param(ips, "interfaceid") {
            Some(p) => {
                let ghost before = conds@.map_values(|x: BindingCondition| condition_value(x));
                let c = BindingCondition {
                    target: ConditionTarget::Parameter(p),
                    expression: decimal_text(iid),
                    key_names: false,
                };
                conds.push(c);
                assert(conds@.map_values(|x: BindingCondition| condition_value(x)) =~= before.push(condition_value(c)));
                let is_indexed = match indexed {
                    Some(q) => str_eq(q.name, "interfaceid"),
                    None => false,
                };
                assert(is_indexed == (indexed_name(pv) == Some("interfaceid"@)));
                if is_indexed {
                    bucket = Some(decimal_text(iid));
                }
            },
            None => {},
        }
    }
    (conds, bucket)
}

/// The parameters an output sets (see `parameters_spec`).
fn binding_parameters(text: Option<&str>, ops: &Vec<EventParameter>, iid: i32) -> (r: Vec<BindingParameter>)
    ensures
        r@.map_values(|x: BindingParameter| parameter_value(x)) == parameters_spec(
            match text {
                Some(t) => Some(t@),
                None => None,
            },
            params_view(ops@),
            iid,
        ),
{
    let ghost pv = params_view(ops@);
    let asg = match text {
        Some(t) => assignments(t),
        None => Vec::new(),
    };
    let ghost av = assignments_view(asg@);
    assert(av == match text {
        Some(t) => assignments_in(t@),
        None => Seq::<(Seq<char>, Seq<char>)>::empty(),
    }) by {
        if text is None {
            assert(av =~= Seq::<(Seq<char>, Seq<char>)>::empty());
        }
    }
    let mut params: Vec<BindingParameter> = Vec::new();
    let mut iface = false;
    let mut k: usize = 0;
    assert(params@.map_values(|x: BindingParameter| parameter_value(x)) =~= Seq::<ParameterValue>::empty());
    while k < asg.len()
        invariant
            k <= asg@.len(),
            pv == params_view(ops@),
            av == assignments_view(asg@),
            parameters_upto(av, pv, k as nat) == (params@.map_values(|x: BindingParameter| parameter_value(x)), iface),
        decreases asg@.len() - k,
    {
        let l = asg[k].0.as_str();
        let r = asg[k].1.as_str();
        assert(av[k as int] == (l@, r@));
        let ghost before = params@.map_values(|x: BindingParameter| parameter_value(x));
        match find_param(ops, l) {
            Some(p) => {
                let x = BindingParameter { param: p, expression: string_from(r), key_names: str_eq(l, "key") };
                params.push(x);
                assert(params@.map_values(|x: BindingParameter| parameter_value(x)) =~= before.push(parameter_value(x)));
                if str_eq(l, "interfaceid") {
                    iface = true;
                }
            },
            None => {},
        }
        k = k + 1;
    }
    if !iface {
        match find_param(ops, "interfaceid") {
            Some(p) => {
                let ghost before = params@.map_values(|x: BindingParameter| parameter_value(x));
                let x = BindingParameter { param: p, expression: decimal_text(iid), key_names: false };
                params.push(x);
                assert(params@.map_values(|x: BindingParameter| parameter_value(x)) =~= before.push(parameter_value(x)));
            },
            None => {},
        }
    }
    params
}

/// The bindings a `<binding>` element (its attributes) of interface `iid`
/// makes, given the known variables (see `binding_spec`).
pub fn bindings_of_element(attributes: &Vec<XmlAttribute>, iid: i32, vars: &Vec<String>) -> (r: Result<
    Vec<RegisteredBinding>,
    String,
>)
    ensures
        match binding_spec(attributes@.map_values(|a: XmlAttribute| a@), iid, names_view(vars@)) {
            Ok(bs) => r matches Ok(v) && bindings_view(v@) == bs,
            Err(e) => r matches Err(m) && m@ == e,
        },
{
    let ghost attrs = attributes@.map_values(|a: XmlAttribute| a@);
    let inp = match binding_input(attributes) {
        Ok(i) => i,
        Err(e) => return Err(e),
    };
    let ips = inp.input.parameters();
    let conds_text = attribute_in(attributes, "conditions");
    let (conds, bucket) = binding_conditions(conds_text, &ips, vars, iid);
    let ghost cs = conditions_spec(attribute_spec(attrs, "conditions"@), params_view(ips@), names_view(vars@), iid);
    assert(match conds_text {
        Some(t) => Some(t@),
        None => None,
    } == attribute_spec(attrs, "conditions"@));
    let outs = match binding_outputs(attributes) {
        Ok(o) => o,
        Err(e) => return Err(e),
    };
    let ghost spec = binding_spec(attrs, iid, names_view(vars@))->Ok_0;
    let ghost os = binding_outputs_spec(attrs)->Ok_0;
    let n = outs.len();
    let mut first_conds = conds;
    let mut result: Vec<RegisteredBinding> = Vec::new();
    let mut k: usize = 0;
    while k < n
        invariant
            k <= n,
            n == outs@.len(),
            n == os.len(),
            spec.len() == n,
            k == 0 ==> first_conds@.map_values(|x: BindingCondition| condition_value(x)) == cs.0,
            opt_text(bucket) == cs.1,
            result@.len() == k,
            forall|j: int| 0 <= j < n ==> (#[trigger] outs@[j]).output_event == os[j].0 && opt_text(outs@[j].parameters)
                == os[j].1,
            forall|j: int| 0 <= j < n ==> #[trigger] spec[j] == (BindingValue {
                input: inp.input,
                output_event: os[j].0,
                conditions: if j == 0 {
                    cs.0
                } else {
                    Seq::empty()
                },
                parameters: parameters_spec(os[j].1, event_parameters(os[j].0), iid),
                echo: j == 0 && inp.echo,
                continued: j + 1 < n,
                pckeyboard_loop_ids: inp.pckeyboard_loop_ids,
                bucket_expression: cs.1,
            }),
            forall|j: int| 0 <= j < k ==> binding_value(#[trigger] result@[j]) == spec[j],
        decreases n - k,
    {
        let out = &outs[k];
        let mut these: Vec<BindingCondition> = Vec::new();
        if k == 0 {
            std::mem::swap(&mut these, &mut first_conds);
        }
        assert(these@.map_values(|x: BindingCondition| condition_value(x)) == (if k == 0 {
            cs.0
        } else {
            Seq::<ConditionValue>::empty()
        })) by {
            if k != 0 {
                assert(these@.map_values(|x: BindingCondition| condition_value(x)) =~= Seq::<ConditionValue>::empty());
            }
        }
        let ops = out.output_event.parameters();
        let ptext = match &out.parameters {
            Some(p) => Some(p.as_str()),
            None => None,
        };
        let params = binding_parameters(ptext, &ops, iid);
        let b = RegisteredBinding {
            input: inp.input,
            output_event: out.output_event,
            conditions: these,
            parameters: params,
            echo: k == 0 && inp.echo,
            continued: k + 1 < n,
            pckeyboard_loop_ids: inp.pckeyboard_loop_ids,
            bucket_expression: match &bucket {
                Some(t) => Some(string_from(t.as_str())),
                None => None,
            },
        };
        result.push(b);
        k = k + 1;
    }
    assert(bindings_view(result@) =~= spec);
    Ok(result)
}

/// The bindings made by the first `k` nodes: each `<binding>` element
/// (below the element with id `within`, when given) adds those it makes,
/// in document order; the first error stops.
pub open spec fn bindings_upto(
    nodes: Seq<XmlNodeValue>,
    within: Option<usize>,
    iid: i32,
    vars: Seq<Seq<char>>,
    k: nat,
) -> Result<Seq<BindingValue>, Seq<char>>
    decreases k,
{
    if k == 0 {
        Ok(Seq::empty())
    } else {
        match bindings_upto(nodes, within, iid, vars, (k - 1) as nat) {
            Err(e) => Err(e),
            Ok(bs) => {
                let n = nodes[k - 1];
                if n.2 && n.3 == "binding"@ && (within is None || n.1 == within) {
                    match binding_spec(n.4, iid, vars) {
                        Ok(more) => Ok(bs + more),
                        Err(e) => Err(e),
                    }
                } else {
                    Ok(bs)
                }
            },
        }
    }
}

proof fn lemma_bindings_error_stays(
    nodes: Seq<XmlNodeValue>,
    within: Option<usize>,
    iid: i32,
    vars: Seq<Seq<char>>,
    k: nat,
    m: nat,
)
    requires
        k <= m,
        bindings_upto(nodes, within, iid, vars, k) is Err,
    ensures
        bindings_upto(nodes, within, iid, vars, m) == bindings_upto(nodes, within, iid, vars, k),
    decreases m - k,
{
    if k < m {
        lemma_bindings_error_stays(nodes, within, iid, vars, k, (m - 1) as nat);
    }
}

fn collect_bindings(nodes: &Vec<XmlNode>, within: Option<usize>, iid: i32, vars: &Vec<String>) -> (r: Result<
    Vec<RegisteredBinding>,
    String,
>)
    ensures
        match bindings_upto(nodes_view(nodes@), within, iid, names_view(vars@), nodes@.len()) {
            Ok(bs) => r matches Ok(v) && bindings_view(v@) == bs,
            Err(e) => r matches Err(m) && m@ == e,
        },
{
    let ghost doc = nodes_view(nodes@);
    let ghost vs = names_view(vars@);
    let mut all: Vec<RegisteredBinding> = Vec::new();
    let mut k: usize = 0;
    assert(bindings_view(all@) =~= Seq::<BindingValue>::empty());
    while k < nodes.len()
        invariant
            k <= nodes@.len(),
            doc == nodes_view(nodes@),
            vs == names_view(vars@),
            bindings_upto(doc, within, iid, vs, k as nat) == Ok::<Seq<BindingValue>, Seq<char>>(bindings_view(all@)),
        decreases nodes@.len() - k,
    {
        let n = &nodes[k];
        assert(doc[k as int] == n@);
        let inside = match within {
            None => true,
            Some(w) => n.parent == Some(w),
        };
        if n.is_element && str_eq(n.name.as_str(), "binding") && inside {
            match bindings_of_element(&n.attributes, iid, vars) {
                Ok(mut more) => {
                    let ghost before = bindings_view(all@);
                    let ghost extra = bindings_view(more@);
                    all.append(&mut more);
                    assert(bindings_view(all@) =~= before + extra);
                },
                Err(e) => {
                    proof {
                        lemma_bindings_error_stays(doc, within, iid, vs, (k + 1) as nat, nodes@.len());
                    }
                    return Err(e);
                },
            }
        }
        k = k + 1;
    }
    Ok(all)
}

/// The bindings of a document of interface `iid` (its nodes, root element
/// first): those of every `<binding>` element, in document order, given
/// the known variables.
pub fn bindings_from_nodes(iid: i32, nodes: &Vec<XmlNode>, vars: &Vec<String>) -> (r: Result<
    Vec<RegisteredBinding>,
    String,
>)
    ensures
        match bindings_upto(nodes_view(nodes@), None, iid, names_view(vars@), nodes@.len()) {
            Ok(bs) => r matches Ok(v) && bindings_view(v@) == bs,
            Err(e) => r matches Err(m) && m@ == e,
        },
{
    collect_bindings(nodes, None, iid, vars)
}

/// Plain value of a declaration: the variable's name, its type and the
/// text of its initial value.
pub type DeclarationValue = (Seq<char>, CoreDataType, Option<Seq<char>>);

pub open spec fn declaration_value(d: Declaration) -> DeclarationValue {
    (d.name@, d.dtype, opt_text(d.init))
}

/// The position of the first element named `name`, from `i` on.
pub open spec fn first_element_named(nodes: Seq<XmlNodeValue>, name: Seq<char>, i: int) -> Option<int>
    decreases nodes.len() - i,
{
    if i < 0 || i >= nodes.len() {
        None
    } else if nodes[i].2 && nodes[i].3 == name {
        Some(i)
    } else {
        first_element_named(nodes, name, i + 1)
    }
}

/// The declarations of the `<declare>` elements among the first `k`
/// nodes that are children of the element with id `parent`; the first
/// error stops.
pub open spec fn declarations_upto(nodes: Seq<XmlNodeValue>, parent: usize, k: nat) -> Result<
    Seq<DeclarationValue>,
    Seq<char>,
>
    decreases k,
{
    if k == 0 {
        Ok(Seq::empty())
    } else {
        match declarations_upto(nodes, parent, (k - 1) as nat) {
            Err(e) => Err(e),
            Ok(ds) => {
                let n = nodes[k - 1];
                if n.2 && n.3 == "declare"@ && n.1 == Some(parent) {
                    match declaration_spec(n.4) {
                        Ok(d) => Ok(ds.push(d)),
                        Err(e) => Err(e),
                    }
                } else {
                    Ok(ds)
                }
            },
        }
    }
}

/// What the `<bindings>` section of a document of interface `iid` holds:
/// the first element named `bindings`; the declarations among its
/// children, then its child bindings, which may test the variables known
/// before and those declared.
pub open spec fn section_spec(nodes: Seq<XmlNodeValue>, iid: i32, vars: Seq<Seq<char>>) -> Result<
    (Seq<DeclarationValue>, Seq<BindingValue>),
    Seq<char>,
> {
    match first_element_named(nodes, "bindings"@, 0) {
        None => Err("Missing <bindings> section"@),
        Some(b) => {
            let pid = nodes[b].0;
            match declarations_upto(nodes, pid, nodes.len()) {
                Err(e) => Err(e),
                Ok(ds) => match bindings_upto(
                    nodes,
                    Some(pid),
                    iid,
                    vars + ds.map_values(|d: DeclarationValue| d.0),
                    nodes.len(),
                ) {
                    Ok(bs) => Ok((ds, bs)),
                    Err(e) => Err(e),
                },
            }
        },
    }
}

proof fn lemma_declarations_error_stays(nodes: Seq<XmlNodeValue>, parent: usize, k: nat, m: nat)
    requires
        k <= m,
        declarations_upto(nodes, parent, k) is Err,
    ensures
        declarations_upto(nodes, parent, m) == declarations_upto(nodes, parent, k),
    decreases m - k,
{
    if k < m {
        lemma_declarations_error_stays(nodes, parent, k, (m - 1) as nat);
    }
}

/// The declarations and bindings of the `<bindings>` section of a
/// document (its nodes, root element first; see `section_spec`).
pub fn bindings_section_from_nodes(iid: i32, nodes: &Vec<XmlNode>, vars: &Vec<String>) -> (r: Result<
    (Vec<Declaration>, Vec<RegisteredBinding>),
    String,
>)
    ensures
        match section_spec(nodes_view(nodes@), iid, names_view(vars@)) {
            Ok((ds, bs)) => r matches Ok((d, b)) && d@.map_values(|x: Declaration| declaration_value(x)) == ds
                && bindings_view(b@) == bs,
            Err(e) => r matches Err(m) && m@ == e,
        },
{
    let ghost doc = nodes_view(nodes@);
    let mut i: usize = 0;
    while i < nodes.len() && !(nodes[i].is_element && str_eq(nodes[i].name.as_str(), "bindings"))
        invariant
            i <= nodes@.len(),
            doc == nodes_view(nodes@),
            first_element_named(doc, "bindings"@, 0) == first_element_named(doc, "bindings"@, i as int),
        decreases nodes@.len() - i,
    {
        assert(doc[i as int] == nodes@[i as int]@);
        i = i + 1;
    }
    if i == nodes.len() {
        return Err(string_from("Missing <bindings> section"));
    }
    assert(doc[i as int] == nodes@[i as int]@);
    let pid = nodes[i].id;
    let mut decls: Vec<Declaration> = Vec::new();
    let mut names: Vec<String> = Vec::new();
    let mut j: usize = 0;
    while j < vars.len()
        invariant
            j <= vars@.len(),
            names_view(names@) == names_view(vars@).take(j as int),
        decreases vars@.len() - j,
    {
        let ghost before = names_view(names@);
        let c = string_from(vars[j].as_str());
        names.push(c);
        assert(names_view(names@) =~= before.push(vars@[j as int]@));
        j = j + 1;
        assert(names_view(names@) =~= names_view(vars@).take(j as int));
    }
    assert(names_view(vars@).take(j as int) =~= names_view(vars@));
    let mut k: usize = 0;
    assert(decls@.map_values(|x: Declaration| declaration_value(x)) =~= Seq::<DeclarationValue>::empty());
    assert(names_view(vars@) + Seq::<DeclarationValue>::empty().map_values(|d: DeclarationValue| d.0) =~= names_view(vars@));
    while k < nodes.len()
        invariant
            k <= nodes@.len(),
            doc == nodes_view(nodes@),
            i < nodes@.len(),
            first_element_named(doc, "bindings"@, 0) == Some(i as int),
            pid == doc[i as int].0,
            declarations_upto(doc, pid, k as nat) == Ok::<Seq<DeclarationValue>, Seq<char>>(
                decls@.map_values(|x: Declaration| declaration_value(x)),
            ),
            names_view(names@) == names_view(vars@) + decls@.map_values(|x: Declaration| declaration_value(x)).map_values(
                |d: DeclarationValue| d.0,
            ),
        decreases nodes@.len() - k,
    {
        let n = &nodes[k];
        assert(doc[k as int] == n@);
        if n.is_element && str_eq(n.name.as_str(), "declare") && n.parent == Some(pid) {
            match declaration(&n.attributes) {
                Ok(d) => {
                    let ghost before = decls@.map_values(|x: Declaration| declaration_value(x));
                    let ghost nb = names_view(names@);
                    names.push(string_from(d.name.as_str()));
                    decls.push(d);
                    assert(decls@.map_values(|x: Declaration| declaration_value(x)) =~= before.push(declaration_value(d)));
                    assert(names_view(names@) =~= nb.push(d.name@));
                    assert(before.push(declaration_value(d)).map_values(|x: DeclarationValue| x.0) =~= before.map_values(
                        |x: DeclarationValue| x.0,
                    ).push(d.name@));
                },
                Err(e) => {
                    proof {
                        lemma_declarations_error_stays(doc, pid, (k + 1) as nat, nodes@.len());
                    }
                    return Err(e);
                },
            }
        }
        k = k + 1;
    }
    let bindings = match collect_bindings(nodes, Some(pid), iid, &names) {
        Ok(b) => b,
        Err(e) => return Err(e),
    };
    Ok((decls, bindings))
}

/// The bindings of the configuration text `xml` of interface `iid` (see
/// `bindings_from_nodes`); text that does not parse gives the parser's
/// error.
pub fn parse_binding_registry_xml(iid: i32, xml: &str, vars: &Vec<String>) -> (r: Result<
    Vec<RegisteredBinding>,
    String,
>)
    ensures
        match xml_document(xml@) {
            Err(e) => r matches Err(m) && m@ == e,
            Ok(doc) => match bindings_upto(doc, None, iid, names_view(vars@), doc.len()) {
                Ok(bs) => r matches Ok(v) && bindings_view(v@) == bs,
                Err(e) => r matches Err(m) && m@ == e,
            },
        },
{
    let nodes = parse_xml_document(xml)?;
    bindings_from_nodes(iid, &nodes, vars)
}

/// The declarations and bindings of the `<bindings>` section of the
/// configuration text `xml` (see `section_spec`); text that does not
/// parse gives the parser's error.
pub fn load_bindings_section_xml(iid: i32, xml: &str, vars: &Vec<String>) -> (r: Result<
    (Vec<Declaration>, Vec<RegisteredBinding>),
    String,
>)
    ensures
        match xml_document(xml@) {
            Err(e) => r matches Err(m) && m@ == e,
            Ok(doc) => match section_spec(doc, iid, names_view(vars@)) {
                Ok((ds, bs)) => r matches Ok((d, b)) && d@.map_values(|x: Declaration| declaration_value(x)) == ds
                    && bindings_view(b@) == bs,
                Err(e) => r matches Err(m) && m@ == e,
            },
        },
{
    let nodes = parse_xml_document(xml)?;
    bindings_section_from_nodes(iid, &nodes, vars)
}

/// Every event type's indexing parameter, where it has one, is an `int`
/// with a positive largest index.
pub proof fn lemma_indexing_params_positive(t: EventType)
    ensures
        first_indexed_from(event_parameters(t), 0) matches Some(j) ==> event_parameters(t)[j].1 == CoreDataType::Int
            && event_parameters(t)[j].2 > 0,
{
    reveal_with_fuel(first_indexed_from, 8);
}

/// The bindings of one input event type, in buckets by the value of the
/// type's indexing parameter (one bucket when it has none).
pub struct BindingTable {
    pub input: EventType,
    pub indexed_param: Option<EventParameter>,
    pub buckets: Vec<Vec<RegisteredBinding>>,
}

/// The binding tables, one per input event type, in the order the types
/// first occur.
pub struct BindingRegistry {
    pub tables: Vec<BindingTable>,
}

/// Plain value of a table.
pub struct TableValue {
    pub input: EventType,
    pub indexed_param: Option<ParamValue>,
    pub buckets: Seq<Seq<BindingValue>>,
}

pub open spec fn table_value(t: BindingTable) -> TableValue {
    TableValue {
        input: t.input,
        indexed_param: match t.indexed_param {
            Some(p) => Some(p@),
            None => None,
        },
        buckets: t.buckets@.map_values(|b: Vec<RegisteredBinding>| bindings_view(b@)),
    }
}

pub open spec fn tables_view(ts: Seq<BindingTable>) -> Seq<TableValue> {
    ts.map_values(|t: BindingTable| table_value(t))
}

pub open spec fn registry_view(r: BindingRegistry) -> Seq<TableValue> {
    tables_view(r.tables@)
}

/// The parameter by which bindings of input type `t` are put in buckets.
pub open spec fn indexing_of(t: EventType) -> Option<ParamValue> {
    match first_indexed_from(event_parameters(t), 0) {
        Some(j) => Some(event_parameters(t)[j]),
        None => None,
    }
}

/// An empty table for input type `t`: a bucket for each value of its
/// indexing parameter up to the largest, whose last bucket also takes the
/// bindings that test no particular value; one bucket without one.
pub open spec fn empty_table(t: EventType) -> TableValue {
    TableValue {
        input: t,
        indexed_param: indexing_of(t),
        buckets: Seq::new(
            match indexing_of(t) {
                Some(p) => (p.2 + 1) as nat,
                None => 1,
            },
            |i: int| Seq::<BindingValue>::empty(),
        ),
    }
}

/// The bucket of binding `b`, given `value`, the value its bucket
/// expression has when that expression is static (none when it is not,
/// or when there is no such expression): the last bucket unless the
/// expression is static.
pub open spec fn bucket_of(b: BindingValue, value: Option<i32>) -> int {
    match indexing_of(b.input) {
        None => 0,
        Some(p) => match (b.bucket_expression, value) {
            (Some(_), Some(v)) => match bucket_index_spec(p, v) {
                Some(x) => x,
                None => p.2 as int,
            },
            _ => p.2 as int,
        },
    }
}

/// The position of the first table for input type `t`, from `i` on.
pub open spec fn table_position(tables: Seq<TableValue>, t: EventType, i: int) -> Option<int>
    decreases tables.len() - i,
{
    if i < 0 || i >= tables.len() {
        None
    } else if tables[i].input == t {
        Some(i)
    } else {
        table_position(tables, t, i + 1)
    }
}

/// A table with `b` added at the end of bucket `bk`, if there is one.
pub open spec fn with_binding(tab: TableValue, bk: int, b: BindingValue) -> TableValue {
    if 0 <= bk < tab.buckets.len() {
        TableValue { buckets: tab.buckets.update(bk, tab.buckets[bk].push(b)), ..tab }
    } else {
        tab
    }
}

/// The tables with binding `b` added (in a new table for its input type
/// if there is none yet).
pub open spec fn add_to_tables(tables: Seq<TableValue>, b: BindingValue, value: Option<i32>) -> Seq<TableValue> {
    let bk = bucket_of(b, value);
    match table_position(tables, b.input, 0) {
        Some(i) => tables.update(i, with_binding(tables[i], bk, b)),
        None => tables.push(with_binding(empty_table(b.input), bk, b)),
    }
}

/// The tables holding the first `k` bindings of `bs`, the bucket of each
/// chosen by its value in `values`.
pub open spec fn registry_spec(bs: Seq<BindingValue>, values: Seq<Option<i32>>, k: nat) -> Seq<TableValue>
    decreases k,
{
    if k == 0 {
        Seq::empty()
    } else {
        add_to_tables(registry_spec(bs, values, (k - 1) as nat), bs[k - 1], values[k - 1])
    }
}

fn empty_table_of(t: EventType) -> (r: BindingTable)
    ensures
        table_value(r) == empty_table(t),
{
    let ps = t.parameters();
    let idx = indexing_param(&ps);
    proof {
        lemma_indexing_params_positive(t);
    }
    let count: usize = match idx {
        Some(p) => (p.max_index as usize) + 1,
        None => 1,
    };
    let mut buckets: Vec<Vec<RegisteredBinding>> = Vec::new();
    let mut i: usize = 0;
    while i < count
        invariant
            i <= count,
            buckets@.len() == i,
            forall|j: int| 0 <= j < i ==> (#[trigger] buckets@[j])@.len() == 0,
        decreases count - i,
    {
        buckets.push(Vec::new());
        i = i + 1;
    }
    let r = BindingTable { input: t, indexed_param: idx, buckets };
    assert(table_value(r).buckets =~= empty_table(t).buckets) by {
        assert forall|j: int| 0 <= j < count implies bindings_view(#[trigger] buckets@[j]@) =~= Seq::<
            BindingValue,
        >::empty() by {}
    }
    r
}

/// The bucket of a binding (see `bucket_of`).
pub fn bucket_for(b: &RegisteredBinding, value: Option<i32>) -> (r: usize)
    ensures
        r == bucket_of(binding_value(*b), value),
{
    let ps = b.input.parameters();
    proof {
        lemma_indexing_params_positive(b.input);
    }
    match indexing_param(&ps) {
        None => 0,
        Some(p) => {
            let max = p.max_index as usize;
            match (&b.bucket_expression, value) {
                (Some(_), Some(v)) => if v < 0 {
                    max
                } else {
                    (v as usize) % max
                },
                _ => max,
            }
        },
    }
}

fn add_to_table(tab: &mut BindingTable, bk: usize, b: RegisteredBinding)
    ensures
        table_value(*final(tab)) == with_binding(table_value(*old(tab)), bk as int, binding_value(b)),
{
    if bk < tab.buckets.len() {
        let ghost old_buckets = tab.buckets@;
        let mut bucket = tab.buckets.remove(bk);
        let ghost bv = bindings_view(bucket@);
        bucket.push(b);
        assert(bindings_view(bucket@) =~= bv.push(binding_value(b)));
        tab.buckets.insert(bk, bucket);
        assert(tab.buckets@.map_values(|x: Vec<RegisteredBinding>| bindings_view(x@)) =~= old_buckets.map_values(
            |x: Vec<RegisteredBinding>| bindings_view(x@),
        ).update(bk as int, bv.push(binding_value(b))));
    }
}

/// Adds binding `b` to the tables (see `add_to_tables`).
pub fn add_binding(tables: &mut Vec<BindingTable>, b: RegisteredBinding, value: Option<i32>)
    ensures
        tables_view(final(tables)@) == add_to_tables(tables_view(old(tables)@), binding_value(b), value),
{
    let ghost tv = tables_view(tables@);
    let bk = bucket_for(&b, value);
    let mut i: usize = 0;
    while i < tables.len() && tables[i].input != b.input
        invariant
            i <= tables@.len(),
            tv == tables_view(tables@),
            table_position(tv, b.input, 0) == table_position(tv, b.input, i as int),
        decreases tables@.len() - i,
    {
        assert(tv[i as int] == table_value(tables@[i as int]));
        i = i + 1;
    }
    if i < tables.len() {
        assert(tv[i as int] == table_value(tables@[i as int]));
        let mut tab = tables.remove(i);
        add_to_table(&mut tab, bk, b);
        tables.insert(i, tab);
        assert(tables_view(tables@) =~= tv.update(i as int, with_binding(tv[i as int], bk as int, binding_value(b))));
    } else {
        let mut tab = empty_table_of(b.input);
        add_to_table(&mut tab, bk, b);
        tables.push(tab);
        assert(tables_view(tables@) =~= tv.push(with_binding(empty_table(b.input), bk as int, binding_value(b))));
    }
}

/// Puts the bindings into tables, in order, the bucket of each chosen by
/// the value its bucket expression has when it is static (`values`, one
/// per binding; see `bucket_of`).
pub fn arrange_bindings(bindings: Vec<RegisteredBinding>, values: &Vec<Option<i32>>) -> (r: BindingRegistry)
    requires
        values@.len() == bindings@.len(),
    ensures
        registry_view(r) == registry_spec(bindings_view(bindings@), values@, bindings@.len()),
{
    let ghost all = bindings_view(bindings@);
    let n = bindings.len();
    let mut rest = bindings;
    let mut tables: Vec<BindingTable> = Vec::new();
    let mut k: usize = 0;
    assert(tables_view(tables@) =~= Seq::<TableValue>::empty());
    while k < n
        invariant
            k <= n,
            n == all.len(),
            values@.len() == n,
            rest@.len() == n - k,
            bindings_view(rest@) == all.skip(k as int),
            tables_view(tables@) == registry_spec(all, values@, k as nat),
        decreases n - k,
    {
        let ghost rv = rest@;
        let b = rest.remove(0);
        assert(binding_value(b) == all[k as int]) by {
            assert(bindings_view(rv)[0] == all.skip(k as int)[0]);
        }
        assert(bindings_view(rest@) =~= all.skip(k + 1)) by {
            assert forall|j: int| 0 <= j < rest@.len() implies bindings_view(rest@)[j] == all.skip(k + 1)[j] by {
                assert(rest@[j] == rv[j + 1]);
                assert(bindings_view(rv)[j + 1] == all.skip(k as int)[j + 1]);
            }
        }
        add_binding(&mut tables, b, values[k]);
        k = k + 1;
    }
    BindingRegistry { tables }
}

} // verus!
