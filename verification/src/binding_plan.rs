//! The shape of a `<binding>` element: its input event, whether it
//! echoes, and its chain of output events.  A binding names its outputs
//! `output`, `output1`, `output2`, ...; `output` may be left out, and the
//! chain ends at the first missing number.  Each output `outputN` takes
//! its parameters from `parametersN`; the conditions and the echo belong to
//! the first output of the chain, and every output but the last is
//! continued by the next.

use vstd::prelude::*;
use vstd::set_lib::{set_int_range, lemma_int_range, lemma_map_size, lemma_len_subset};
use crate::datatypes::CoreDataType;
use crate::event::{EventType, event_named};
use crate::text::{decimal_nat, digit_char, digits_value, push_decimal_u64, push_str, str_eq, string_from};
use crate::includes::found_at;
use crate::runtime_config::opt_text;
use crate::xml::{XmlAttribute, XmlAttributeValue, attribute_in, attribute_spec};

verus! {

/// Event types that can be the input of a binding.
pub open spec fn is_bindable_input(t: EventType) -> bool {
    match t {
        EventType::NoEvent | EventType::InputKey | EventType::InputJoystickButton | EventType::InputMIDIKey
        | EventType::InputMIDIController | EventType::InputMIDIProgramChange
        | EventType::InputMIDIChannelPressure | EventType::InputMIDIPitchBend
        | EventType::InputMIDIPolyphonicPressure | EventType::InputMIDISystemExclusive
        | EventType::InputMIDITimeCodeQuarterFrame | EventType::InputMIDISongPosition
        | EventType::InputMIDISongSelect | EventType::InputMIDITuneRequest | EventType::InputMIDIActiveSensing
        | EventType::InputMIDIReset | EventType::StartSession | EventType::StartInterface | EventType::GoSub
        | EventType::LoopClicked | EventType::BrowserItemBrowsed => true,
        _ => false,
    }
}

/// Whether `t` can be the input of a binding.
pub fn bindable_input(t: EventType) -> (r: bool)
    ensures
        r == is_bindable_input(t),
{
    match t {
        EventType::NoEvent | EventType::InputKey | EventType::InputJoystickButton | EventType::InputMIDIKey
        | EventType::InputMIDIController | EventType::InputMIDIProgramChange
        | EventType::InputMIDIChannelPressure | EventType::InputMIDIPitchBend
        | EventType::InputMIDIPolyphonicPressure | EventType::InputMIDISystemExclusive
        | EventType::InputMIDITimeCodeQuarterFrame | EventType::InputMIDISongPosition
        | EventType::InputMIDISongSelect | EventType::InputMIDITuneRequest | EventType::InputMIDIActiveSensing
        | EventType::InputMIDIReset | EventType::StartSession | EventType::StartInterface | EventType::GoSub
        | EventType::LoopClicked | EventType::BrowserItemBrowsed => true,
        _ => false,
    }
}

/// `pattern` occurs in `text`.
pub open spec fn contains_text(text: Seq<char>, pattern: Seq<char>) -> bool {
    exists|i: int| #[trigger] found_at(text, pattern, i)
}

/// Whether `pattern` occurs in `text`.
pub fn text_contains(text: &str, pattern: &str) -> (r: bool)
    ensures
        r == contains_text(text@, pattern@),
{
    let n = text.unicode_len();
    let m = pattern.unicode_len();
    if m > n {
        return false;
    }
    let mut i: usize = 0;
    while i <= n - m
        invariant
            m <= n,
            n == text@.len(),
            m == pattern@.len(),
            forall|j: int| 0 <= j < i ==> !#[trigger] found_at(text@, pattern@, j),
        decreases n - m + 1 - i,
    {
        let mut k: usize = 0;
        let mut same = true;
        while same && k < m
            invariant
                k <= m,
                i + m <= n,
                n == text@.len(),
                m == pattern@.len(),
                forall|q: int| 0 <= q < k ==> text@[i + q] == pattern@[q],
                !same ==> k < m && text@[i + k] != pattern@[k as int],
            decreases m - k + (if same { 1int } else { 0int }),
        {
            if text.get_char(i + k) != pattern.get_char(k) {
                same = false;
            } else {
                k = k + 1;
            }
        }
        if same {
            assert(text@.subrange(i as int, i + m) =~= pattern@);
            assert(found_at(text@, pattern@, i as int));
            return true;
        }
        assert(text@.subrange(i as int, i + m)[k as int] != pattern@[k as int]);
        assert(!found_at(text@, pattern@, i as int));
        i = i + 1;
    }
    assert forall|j: int| !#[trigger] found_at(text@, pattern@, j) by {
        if 0 <= j && j < i {
        }
    }
    false
}

/// The input side of a binding: its event type, whether it echoes, and
/// whether it reads keyboard loop ids (a key binding whose conditions
/// mention `key=VAR_pckeyrange`).
pub struct BindingInput {
    pub input: EventType,
    pub echo: bool,
    pub pckeyboard_loop_ids: bool,
}

pub open spec fn binding_input_spec(attrs: Seq<XmlAttributeValue>) -> Result<(EventType, bool, bool), Seq<char>> {
    match attribute_spec(attrs, "input"@) {
        None => Err("Invalid binding: missing input attribute"@),
        Some(n) => match event_named(n) {
            None => Err("Invalid input event '"@ + n + "'"@),
            Some(t) => if !is_bindable_input(t) {
                Err("Event '"@ + n + "' cannot be used as an input"@)
            } else {
                Ok(
                    (
                        t,
                        match attribute_spec(attrs, "echo"@) {
                            Some(v) => v != "0"@,
                            None => false,
                        },
                        t == EventType::InputKey && match attribute_spec(attrs, "conditions"@) {
                            Some(c) => contains_text(c, "key=VAR_pckeyrange"@),
                            None => false,
                        },
                    ),
                )
            },
        },
    }
}

/// Reads the input side of a binding from its attributes.
pub fn binding_input(attributes: &Vec<XmlAttribute>) -> (r: Result<BindingInput, String>)
    ensures
        match binding_input_spec(attributes@.map_values(|a: XmlAttribute| a@)) {
            Ok(v) => r matches Ok(b) && (b.input, b.echo, b.pckeyboard_loop_ids) == v,
            Err(e) => r matches Err(m) && m@ == e,
        },
{
    let name = match attribute_in(attributes, "input") {
        Some(n) => n,
        None => return Err(string_from("Invalid binding: missing input attribute")),
    };
    let input = match EventType::from_name(name) {
        Some(t) => t,
        None => {
            let mut m = string_from("Invalid input event '");
            push_str(&mut m, name);
            push_str(&mut m, "'");
            return Err(m);
        },
    };
    if !bindable_input(input) {
        let mut m = string_from("Event '");
        push_str(&mut m, name);
        push_str(&mut m, "' cannot be used as an input");
        return Err(m);
    }
    let echo = match attribute_in(attributes, "echo") {
        Some(v) => !str_eq(v, "0"),
        None => false,
    };
    let pck = input == EventType::InputKey && match attribute_in(attributes, "conditions") {
        Some(c) => text_contains(c, "key=VAR_pckeyrange"),
        None => false,
    };
    Ok(BindingInput { input, echo, pckeyboard_loop_ids: pck })
}

/// `base` numbered `i`: `base` itself for 0, else `base` and `i` in
/// decimal.
pub open spec fn numbered(base: Seq<char>, i: nat) -> Seq<char> {
    if i == 0 {
        base
    } else {
        base + decimal_nat(i)
    }
}

/// The outputs from number `i` on, each with its event type and its
/// parameters text: a missing `output` is skipped, the first other
/// missing number ends the chain.  (The chain cannot go past the number
/// of attributes: see `lemma_outputs_bounded`.)
pub open spec fn outputs_from(attrs: Seq<XmlAttributeValue>, i: nat) -> Result<
    Seq<(EventType, Option<Seq<char>>)>,
    Seq<char>,
>
    decreases attrs.len() + 2 - i,
{
    if i > attrs.len() + 1 {
        Ok(Seq::empty())
    } else {
        match attribute_spec(attrs, numbered("output"@, i)) {
            None => if i == 0 {
                outputs_from(attrs, 1)
            } else {
                Ok(Seq::empty())
            },
            Some(n) => match event_named(n) {
                None => Err("Invalid output event '"@ + n + "'"@),
                Some(t) => match outputs_from(attrs, i + 1) {
                    Ok(rest) => Ok(seq![(t, attribute_spec(attrs, numbered("parameters"@, i)))] + rest),
                    Err(e) => Err(e),
                },
            },
        }
    }
}

/// The output chain of a binding; a binding without outputs is refused.
pub open spec fn binding_outputs_spec(attrs: Seq<XmlAttributeValue>) -> Result<
    Seq<(EventType, Option<Seq<char>>)>,
    Seq<char>,
> {
    match outputs_from(attrs, 0) {
        Ok(s) => if s.len() == 0 {
            Err("Invalid binding: no output attribute"@)
        } else {
            Ok(s)
        },
        Err(e) => Err(e),
    }
}

/// One output of a binding's chain.
pub struct BindingOutput {
    pub output_event: EventType,
    pub parameters: Option<String>,
    pub continued: bool,
}

pub open spec fn prepend_outputs(
    p: Seq<(EventType, Option<Seq<char>>)>,
    r: Result<Seq<(EventType, Option<Seq<char>>)>, Seq<char>>,
) -> Result<Seq<(EventType, Option<Seq<char>>)>, Seq<char>> {
    match r {
        Ok(s) => Ok(p + s),
        Err(e) => Err(e),
    }
}

/// The decimal digits of `n` read back give `n`.
proof fn lemma_decimal_value(n: nat)
    ensures
        digits_value(decimal_nat(n)) == n,
    decreases n,
{
    let d = decimal_nat(n);
    if n >= 10 {
        lemma_decimal_value(n / 10);
        assert(d.drop_last() =~= decimal_nat(n / 10));
    }
    let r = (n % 10) as int;
    let c = digit_char(r);
    assert(((r + 48) as u8) as char as u32 == r + 48);
    assert((c as u32) - 48 == r);
    assert(d.last() == c);
    if n < 10 {
        assert(d.drop_last() =~= Seq::<char>::empty());
    }
    assert(d.len() > 0);
    assert(digits_value(d) == digits_value(d.drop_last()) * 10 + ((d.last() as u32) - 48) as nat);
    assert(digits_value(d.drop_last()) == n / 10);
    assert(n == (n / 10) * 10 + r);
}

/// The position of an attribute without namespace named `name`, where
/// there is one.
proof fn lemma_attribute_position(attrs: Seq<XmlAttributeValue>, name: Seq<char>) -> (j: int)
    requires
        attribute_spec(attrs, name) is Some,
    ensures
        0 <= j < attrs.len(),
        attrs[j].0 is None && attrs[j].1 == name,
    decreases attrs.len(),
{
    if attrs[0].0 is None && attrs[0].1 == name {
        0
    } else {
        let k = lemma_attribute_position(attrs.drop_first(), name);
        k + 1
    }
}

/// An attribute list holds fewer numbered outputs than attributes: not
/// all of `output1` to `output(n+1)` are there, `n` being the number of
/// attributes.
pub proof fn lemma_outputs_bounded(attrs: Seq<XmlAttributeValue>)
    ensures
        exists|i: nat| 1 <= i <= attrs.len() + 1 && #[trigger] attribute_spec(attrs, numbered("output"@, i)) is None,
{
    if forall|i: nat| 1 <= i <= attrs.len() + 1 ==> #[trigger] attribute_spec(attrs, numbered("output"@, i)) is Some {
        let l = attrs.len() as int;
        let f = |i: int| output_position(attrs, i);
        let x = set_int_range(1, l + 2);
        lemma_int_range(1, l + 2);
        assert forall|a: int, b: int| x.contains(a) && x.contains(b) && #[trigger] f(a) == #[trigger] f(b) implies a == b by {
            lemma_position_spec(attrs, a);
            lemma_position_spec(attrs, b);
            lemma_decimal_value(a as nat);
            lemma_decimal_value(b as nat);
            let na = numbered("output"@, a as nat);
            let nb = numbered("output"@, b as nat);
            let p = "output"@;
            assert(na.subrange(p.len() as int, na.len() as int) =~= decimal_nat(a as nat));
            assert(nb.subrange(p.len() as int, nb.len() as int) =~= decimal_nat(b as nat));
        }
        let y = x.map(f);
        lemma_map_size(x, y, f);
        assert(y.subset_of(set_int_range(0, l))) by {
            assert forall|p: int| y.contains(p) implies set_int_range(0, l).contains(p) by {
                let a = choose|a: int| x.contains(a) && f(a) == p;
                lemma_position_spec(attrs, a);
            }
        }
        lemma_int_range(0, l);
        lemma_len_subset(y, set_int_range(0, l));
        assert(false);
    }
}

/// Where the attribute `output<i>` stands, when the numbered outputs up
/// to the number of attributes plus one are all present.
spec fn output_position(attrs: Seq<XmlAttributeValue>, i: int) -> int {
    choose|j: int| 0 <= j < attrs.len() && attrs[j].0 is None && attrs[j].1 == numbered("output"@, i as nat)
}

proof fn lemma_position_spec(attrs: Seq<XmlAttributeValue>, i: int)
    requires
        1 <= i <= attrs.len() + 1,
        forall|k: nat| 1 <= k <= attrs.len() + 1 ==> #[trigger] attribute_spec(attrs, numbered("output"@, k)) is Some,
    ensures
        0 <= output_position(attrs, i) < attrs.len(),
        attrs[output_position(attrs, i)].1 == numbered("output"@, i as nat),
{
    assert(attribute_spec(attrs, numbered("output"@, i as nat)) is Some);
    let j = lemma_attribute_position(attrs, numbered("output"@, i as nat));
    assert(0 <= j < attrs.len() && attrs[j].0 is None && attrs[j].1 == numbered("output"@, i as nat));
}

} // verus!

verus! {

pub open spec fn outputs_view(outs: Seq<(EventType, Option<String>)>) -> Seq<(EventType, Option<Seq<char>>)> {
    outs.map_values(|o: (EventType, Option<String>)| (o.0, opt_text(o.1)))
}

/// The name `base` numbered `i` (see `numbered`).
fn numbered_name(base: &str, i: u64) -> (r: String)
    ensures
        r@ == numbered(base@, i as nat),
{
    let mut s = string_from(base);
    if i > 0 {
        push_decimal_u64(&mut s, i);
    }
    s
}

/// Reads the output numbered `i`, where it is there: its event type and
/// its parameters text.
fn numbered_output(attributes: &Vec<XmlAttribute>, i: u64) -> (r: Option<Result<(EventType, Option<String>), String>>)
    ensures
        ({
            let attrs = attributes@.map_values(|a: XmlAttribute| a@);
            match attribute_spec(attrs, numbered("output"@, i as nat)) {
                None => r is None,
                Some(n) => match event_named(n) {
                    None => r matches Some(Err(m)) && m@ == "Invalid output event '"@ + n + "'"@,
                    Some(t) => r matches Some(Ok(o)) && o.0 == t && opt_text(o.1) == attribute_spec(
                        attrs,
                        numbered("parameters"@, i as nat),
                    ),
                },
            }
        }),
{
    let name = numbered_name("output", i);
    let n = match attribute_in(attributes, name.as_str()) {
        Some(n) => n,
        None => return None,
    };
    match EventType::from_name(n) {
        None => {
            let mut m = string_from("Invalid output event '");
            push_str(&mut m, n);
            push_str(&mut m, "'");
            Some(Err(m))
        },
        Some(t) => {
            let pname = numbered_name("parameters", i);
            let params = match attribute_in(attributes, pname.as_str()) {
                Some(p) => Some(string_from(p)),
                None => None,
            };
            Some(Ok((t, params)))
        },
    }
}

/// The chain read so far, made into outputs: every one but the last is
/// continued; an empty chain is refused.
fn finish_outputs(outs: Vec<(EventType, Option<String>)>) -> (r: Result<Vec<BindingOutput>, String>)
    ensures
        outs@.len() == 0 ==> (r matches Err(m) && m@ == "Invalid binding: no output attribute"@),
        outs@.len() > 0 ==> (r matches Ok(v) && v@.len() == outs@.len() && forall|k: int|
            0 <= k < outs@.len() ==> (#[trigger] v@[k]).output_event == outs@[k].0 && opt_text(v@[k].parameters)
                == opt_text(outs@[k].1) && v@[k].continued == (k + 1 < outs@.len())),
{
    let n = outs.len();
    if n == 0 {
        return Err(string_from("Invalid binding: no output attribute"));
    }
    let mut v: Vec<BindingOutput> = Vec::new();
    let mut k: usize = 0;
    while k < n
        invariant
            k <= n,
            n == outs@.len(),
            v@.len() == k,
            forall|j: int|
                0 <= j < k ==> (#[trigger] v@[j]).output_event == outs@[j].0 && opt_text(v@[j].parameters) == opt_text(
                    outs@[j].1,
                ) && v@[j].continued == (j + 1 < n),
        decreases n - k,
    {
        let params = match &outs[k].1 {
            Some(p) => Some(string_from(p.as_str())),
            None => None,
        };
        v.push(BindingOutput { output_event: outs[k].0, parameters: params, continued: k + 1 < n });
        k = k + 1;
    }
    Ok(v)
}

/// Reads the output chain of a binding from its attributes (see
/// `binding_outputs_spec`).
pub fn binding_outputs(attributes: &Vec<XmlAttribute>) -> (r: Result<Vec<BindingOutput>, String>)
    ensures
        match binding_outputs_spec(attributes@.map_values(|a: XmlAttribute| a@)) {
            Ok(s) => r matches Ok(v) && v@.len() == s.len() && forall|k: int|
                0 <= k < s.len() ==> (#[trigger] v@[k]).output_event == s[k].0 && opt_text(v@[k].parameters)
                    == s[k].1 && v@[k].continued == (k + 1 < s.len()),
            Err(e) => r matches Err(m) && m@ == e,
        },
{
    let ghost attrs = attributes@.map_values(|a: XmlAttribute| a@);
    let n = attributes.len();
    let mut outs: Vec<(EventType, Option<String>)> = Vec::new();
    match numbered_output(attributes, 0) {
        None => {},
        Some(Err(m)) => return Err(m),
        Some(Ok(o)) => {
            outs.push(o);
            assert(outputs_view(outs@) =~= seq![(o.0, opt_text(o.1))]);
        },
    }
    proof {
    assert(outputs_from(attrs, 0) == prepend_outputs(outputs_view(outs@), outputs_from(attrs, 1))) by {
        if outputs_from(attrs, 1) is Ok {
            assert(outputs_view(outs@) + outputs_from(attrs, 1)->Ok_0 =~= outputs_view(outs@) + outputs_from(
                attrs,
                1,
            )->Ok_0);
        }
        if outs@.len() == 0 {
            assert(outputs_view(outs@) =~= Seq::<(EventType, Option<Seq<char>>)>::empty());
            if outputs_from(attrs, 1) is Ok {
                assert(Seq::<(EventType, Option<Seq<char>>)>::empty() + outputs_from(attrs, 1)->Ok_0 =~= outputs_from(
                    attrs,
                    1,
                )->Ok_0);
            }
        }
    }
    }
    let mut k: usize = 0;
    while k < n
        invariant
            k <= n,
            n == attributes@.len(),
            attrs == attributes@.map_values(|a: XmlAttribute| a@),
            outputs_from(attrs, 0) == prepend_outputs(outputs_view(outs@), outputs_from(attrs, (k + 1) as nat)),
            forall|j: nat| 1 <= j <= k ==> #[trigger] attribute_spec(attrs, numbered("output"@, j)) is Some,
        decreases n - k,
    {
        let i = (k + 1) as u64;
        assert(i as nat == (k + 1) as nat);
        match numbered_output(attributes, i) {
            None => {
                assert(outputs_from(attrs, (k + 1) as nat) == Ok::<Seq<(EventType, Option<Seq<char>>)>, Seq<char>>(
                    Seq::empty(),
                ));
                assert(outputs_view(outs@) + Seq::<(EventType, Option<Seq<char>>)>::empty() =~= outputs_view(outs@));
                return finish_outputs(outs);
            },
            Some(Err(m)) => {
                return Err(m);
            },
            Some(Ok(o)) => {
                let ghost before = outputs_view(outs@);
                outs.push(o);
                assert(outputs_view(outs@) =~= before.push((o.0, opt_text(o.1))));
                proof {
                    let rest = outputs_from(attrs, (k + 2) as nat);
                    if rest is Ok {
                        assert(before + (seq![(o.0, opt_text(o.1))] + rest->Ok_0) =~= outputs_view(outs@) + rest->Ok_0);
                    }
                }
            },
        }
        k = k + 1;
    }
    proof {
        lemma_outputs_bounded(attrs);
        let w = choose|i: nat| 1 <= i <= attrs.len() + 1 && #[trigger] attribute_spec(attrs, numbered("output"@, i)) is None;
        assert(w == n + 1);
        assert(outputs_view(outs@) + Seq::<(EventType, Option<Seq<char>>)>::empty() =~= outputs_view(outs@));
    }
    finish_outputs(outs)
}

/// The type a variable declaration names: `char`, `int`, `long`, `float`
/// or `range`; any other name is refused.
pub open spec fn declared_type(name: Seq<char>) -> Option<CoreDataType> {
    if name == "char"@ {
        Some(CoreDataType::Char)
    } else if name == "int"@ {
        Some(CoreDataType::Int)
    } else if name == "long"@ {
        Some(CoreDataType::Long)
    } else if name == "float"@ {
        Some(CoreDataType::Float)
    } else if name == "range"@ {
        Some(CoreDataType::Range)
    } else {
        None
    }
}

/// What a `<declare>` element declares: the variable's name, its type
/// and the text of its initial value, if given.
pub open spec fn declaration_spec(attrs: Seq<XmlAttributeValue>) -> Result<
    (Seq<char>, CoreDataType, Option<Seq<char>>),
    Seq<char>,
> {
    match attribute_spec(attrs, "var"@) {
        None => Err("Variable declaration is missing 'var'"@),
        Some(name) => match attribute_spec(attrs, "type"@) {
            None => Err("Variable '"@ + name + "' is missing type"@),
            Some(t) => match declared_type(t) {
                None => Err("Variable '"@ + name + "' uses unsupported type '"@ + t + "'"@),
                Some(dtype) => Ok((name, dtype, attribute_spec(attrs, "init"@))),
            },
        },
    }
}

/// A declared variable: its name, its type and the text of its initial
/// value, if given.
pub struct Declaration {
    pub name: String,
    pub dtype: CoreDataType,
    pub init: Option<String>,
}

/// Reads a `<declare>` element (see `declaration_spec`).
pub fn declaration(attributes: &Vec<XmlAttribute>) -> (r: Result<Declaration, String>)
    ensures
        match declaration_spec(attributes@.map_values(|a: XmlAttribute| a@)) {
            Ok(d) => r matches Ok(x) && x.name@ == d.0 && x.dtype == d.1 && opt_text(x.init) == d.2,
            Err(e) => r matches Err(m) && m@ == e,
        },
{
    let name = match attribute_in(attributes, "var") {
        Some(n) => n,
        None => return Err(string_from("Variable declaration is missing 'var'")),
    };
    let t = match attribute_in(attributes, "type") {
        Some(t) => t,
        None => {
            let mut m = string_from("Variable '");
            push_str(&mut m, name);
            push_str(&mut m, "' is missing type");
            return Err(m);
        },
    };
    let dtype = if str_eq(t, "char") {
        CoreDataType::Char
    } else if str_eq(t, "int") {
        CoreDataType::Int
    } else if str_eq(t, "long") {
        CoreDataType::Long
    } else if str_eq(t, "float") {
        CoreDataType::Float
    } else if str_eq(t, "range") {
        CoreDataType::Range
    } else {
        let mut m = string_from("Variable '");
        push_str(&mut m, name);
        push_str(&mut m, "' uses unsupported type '");
        push_str(&mut m, t);
        push_str(&mut m, "'");
        return Err(m);
    };
    let init = match attribute_in(attributes, "init") {
        Some(v) => Some(string_from(v)),
        None => None,
    };
    Ok(Declaration { name: string_from(name), dtype, init })
}

} // verus!
