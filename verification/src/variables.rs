//! The configuration's variables by name, and the name-ordered, bounded
//! copy of them that a renderer reads.

use vstd::prelude::*;
use crate::datatypes::{CoreDataType, Range, UserVariable};
use crate::text::{str_eq, string_from};

verus! {

/// At most this many variables are copied for a renderer.
pub const MAX_CONFIG_VARIABLE_SNAPSHOT: usize = 256;

/// Code-point order of texts: a proper prefix comes first, otherwise the
/// first differing character decides (the order of `String`).
pub open spec fn text_less(a: Seq<char>, b: Seq<char>) -> bool
    decreases a.len(),
{
    if a.len() == 0 {
        b.len() > 0
    } else if b.len() == 0 {
        false
    } else if a[0] != b[0] {
        (a[0] as int) < (b[0] as int)
    } else {
        text_less(a.drop_first(), b.drop_first())
    }
}

pub proof fn lemma_text_less_irreflexive(a: Seq<char>)
    ensures
        !text_less(a, a),
    decreases a.len(),
{
    if a.len() > 0 {
        lemma_text_less_irreflexive(a.drop_first());
    }
}

/// Of two different texts, exactly one comes first.
pub proof fn lemma_text_less_total(a: Seq<char>, b: Seq<char>)
    requires
        a != b,
    ensures
        text_less(a, b) != text_less(b, a),
    decreases a.len(),
{
    if a.len() == 0 && b.len() == 0 {
        assert(a =~= b);
    }
    if a.len() > 0 && b.len() > 0 && a[0] != b[0] {
        assert((a[0] as int) != (b[0] as int));
    }
    if a.len() > 0 && b.len() > 0 && a[0] == b[0] {
        if a.drop_first() == b.drop_first() {
            assert(a =~= seq![a[0]] + a.drop_first());
            assert(b =~= seq![b[0]] + b.drop_first());
        }
        lemma_text_less_total(a.drop_first(), b.drop_first());
    }
}

pub proof fn lemma_text_less_transitive(a: Seq<char>, b: Seq<char>, c: Seq<char>)
    requires
        text_less(a, b),
        text_less(b, c),
    ensures
        text_less(a, c),
    decreases a.len(),
{
    if a.len() > 0 && b.len() > 0 && c.len() > 0 && a[0] == b[0] && b[0] == c[0] {
        lemma_text_less_transitive(a.drop_first(), b.drop_first(), c.drop_first());
    }
}

/// Whether `a` comes before `b` (see `text_less`).
pub fn text_lt(a: &str, b: &str) -> (r: bool)
    ensures
        r == text_less(a@, b@),
{
    let n = a.unicode_len();
    let m = b.unicode_len();
    let mut i: usize = 0;
    assert(a@.skip(0) =~= a@ && b@.skip(0) =~= b@);
    while i < n && i < m && a.get_char(i) == b.get_char(i)
        invariant
            i <= n,
            i <= m,
            n == a@.len(),
            m == b@.len(),
            text_less(a@, b@) == text_less(a@.skip(i as int), b@.skip(i as int)),
        decreases n - i,
    {
        assert(a@.skip(i as int).drop_first() =~= a@.skip(i + 1));
        assert(b@.skip(i as int).drop_first() =~= b@.skip(i + 1));
        i = i + 1;
    }
    if i == n {
        i < m
    } else if i == m {
        false
    } else {
        (a.get_char(i) as u32) < (b.get_char(i) as u32)
    }
}

/// Plain value of the table: each name with its variable.
pub type TableEntries = Seq<(Seq<char>, UserVariable)>;

pub open spec fn entries_view(es: Seq<(String, UserVariable)>) -> TableEntries {
    es.map_values(|e: (String, UserVariable)| (e.0@, e.1))
}

/// No name occurs twice.
pub open spec fn distinct_names(t: TableEntries) -> bool {
    forall|i: int, j: int| 0 <= i < j < t.len() ==> t[i].0 != t[j].0
}

/// The variable named `name`, if there is one.
pub open spec fn value_named(t: TableEntries, name: Seq<char>) -> Option<UserVariable> {
    if exists|i: int| 0 <= i < t.len() && t[i].0 == name {
        Some(t[choose|i: int| 0 <= i < t.len() && t[i].0 == name].1)
    } else {
        None
    }
}

/// The names of the variables.
pub open spec fn table_names(t: TableEntries) -> Set<Seq<char>> {
    Set::new(|n: Seq<char>| exists|i: int| 0 <= i < t.len() && t[i].0 == n)
}

/// The configuration's variables.
pub struct VariableTable {
    entries: Vec<(String, UserVariable)>,
}

impl VariableTable {
    #[verifier::type_invariant]
    spec fn names_distinct(self) -> bool {
        distinct_names(entries_view(self.entries@))
    }

    pub closed spec fn view_entries(self) -> TableEntries {
        entries_view(self.entries@)
    }

    /// The variable named `name`, if there is one.
    pub open spec fn value(self, name: Seq<char>) -> Option<UserVariable> {
        value_named(self.view_entries(), name)
    }

    /// The names of the variables.
    pub open spec fn names(self) -> Set<Seq<char>> {
        table_names(self.view_entries())
    }

    /// A table without variables.
    pub fn new() -> (t: VariableTable)
        ensures
            t.names() == Set::<Seq<char>>::empty(),
            forall|n: Seq<char>| #[trigger] t.value(n) is None,
    {
        let t = VariableTable { entries: Vec::new() };
        assert(t.names() =~= Set::<Seq<char>>::empty());
        t
    }

    fn position(&self, name: &str) -> (r: Option<usize>)
        ensures
            match r {
                Some(i) => i < self.view_entries().len() && self.view_entries()[i as int].0 == name@,
                None => forall|i: int| 0 <= i < self.view_entries().len() ==> self.view_entries()[i].0 != name@,
            },
    {
        let ghost t = self.view_entries();
        let mut i: usize = 0;
        while i < self.entries.len()
            invariant
                i <= self.entries@.len(),
                t == entries_view(self.entries@),
                forall|j: int| 0 <= j < i ==> t[j].0 != name@,
            decreases self.entries@.len() - i,
        {
            assert(t[i as int].0 == self.entries@[i as int].0@);
            if str_eq(self.entries[i].0.as_str(), name) {
                return Some(i);
            }
            i = i + 1;
        }
        None
    }

    /// Whether there is a variable named `name`.
    pub fn has_variable(&self, name: &str) -> (r: bool)
        ensures
            r == self.names().contains(name@),
    {
        match self.position(name) {
            Some(i) => {
                assert(self.names().contains(name@));
                true
            },
            None => false,
        }
    }

    /// The variable named `name`, if there is one.
    pub fn get_variable(&self, name: &str) -> (r: Option<&UserVariable>)
        ensures
            match self.value(name@) {
                Some(v) => r matches Some(x) && *x == v,
                None => r is None,
            },
    {
        proof {
            use_type_invariant(self);
        }
        match self.position(name) {
            Some(i) => {
                let ghost t = self.view_entries();
                assert(t[i as int].0 == name@);
                let ghost c = choose|j: int| 0 <= j < t.len() && t[j].0 == name@;
                assert(c == i);
                Some(&self.entries[i].1)
            },
            None => None,
        }
    }

    /// Sets the variable named `name` to `value`, adding it if there is no
    /// such variable.
    pub fn set_variable(&mut self, name: &str, value: UserVariable)
        ensures
            final(self).value(name@) == Some(value),
            forall|n: Seq<char>| n != name@ ==> #[trigger] final(self).value(n) == old(self).value(n),
            final(self).names() == old(self).names().insert(name@),
    {
        proof {
            use_type_invariant(&*self);
        }
        let ghost t = self.view_entries();
        let ghost nv = value;
        match self.position(name) {
            Some(i) => {
                let mut entries = Vec::new();
                std::mem::swap(&mut entries, &mut self.entries);
                entries.set(i, (string_from(name), value));
                let ghost u = entries_view(entries@);
                assert(u =~= t.update(i as int, (name@, nv)));
                assert(distinct_names(u));
                self.entries = entries;
                proof {
                    self.lemma_update_values(t, i as int, name@, nv);
                }
            },
            None => {
                let mut entries = Vec::new();
                std::mem::swap(&mut entries, &mut self.entries);
                entries.push((string_from(name), value));
                let ghost u = entries_view(entries@);
                assert(u =~= t.push((name@, nv)));
                assert(distinct_names(u));
                self.entries = entries;
                proof {
                    self.lemma_push_values(t, name@, nv);
                }
            },
        }
    }

    proof fn lemma_update_values(self, t: TableEntries, i: int, name: Seq<char>, v: UserVariable)
        requires
            distinct_names(t),
            0 <= i < t.len(),
            t[i].0 == name,
            self.view_entries() == t.update(i, (name, v)),
            distinct_names(self.view_entries()),
        ensures
            self.value(name) == Some(v),
            forall|n: Seq<char>| n != name ==> #[trigger] self.value(n) == value_named(t, n),
            self.names() == table_names(t).insert(name),
    {
        let u = self.view_entries();
        let c = choose|j: int| 0 <= j < u.len() && u[j].0 == name;
        assert(u[i].0 == name);
        assert(c == i);
        assert forall|n: Seq<char>| n != name implies #[trigger] self.value(n) == value_named(t, n) by {
            if exists|j: int| 0 <= j < t.len() && t[j].0 == n {
                let a = choose|j: int| 0 <= j < t.len() && t[j].0 == n;
                assert(u[a].0 == n);
                let b = choose|j: int| 0 <= j < u.len() && u[j].0 == n;
                assert(a == b);
            }
        }
        assert(self.names() =~= table_names(t).insert(name)) by {
            assert forall|n: Seq<char>| self.names().contains(n) <==> table_names(t).insert(name).contains(n) by {
                if table_names(t).contains(n) && n != name {
                    let a = choose|j: int| 0 <= j < t.len() && t[j].0 == n;
                    assert(u[a].0 == n);
                }
                if self.names().contains(n) && n != name {
                    let a = choose|j: int| 0 <= j < u.len() && u[j].0 == n;
                    assert(t[a].0 == n);
                }
            }
        }
    }

    proof fn lemma_push_values(self, t: TableEntries, name: Seq<char>, v: UserVariable)
        requires
            forall|i: int| 0 <= i < t.len() ==> t[i].0 != name,
            self.view_entries() == t.push((name, v)),
            distinct_names(self.view_entries()),
        ensures
            self.value(name) == Some(v),
            forall|n: Seq<char>| n != name ==> #[trigger] self.value(n) == value_named(t, n),
            self.names() == table_names(t).insert(name),
    {
        let u = self.view_entries();
        assert(u[t.len() as int].0 == name);
        let c = choose|j: int| 0 <= j < u.len() && u[j].0 == name;
        assert(c == t.len());
        assert forall|n: Seq<char>| n != name implies #[trigger] self.value(n) == value_named(t, n) by {
            if exists|j: int| 0 <= j < t.len() && t[j].0 == n {
                let a = choose|j: int| 0 <= j < t.len() && t[j].0 == n;
                assert(u[a].0 == n);
                let b = choose|j: int| 0 <= j < u.len() && u[j].0 == n;
                assert(a == b);
            }
        }
        assert(self.names() =~= table_names(t).insert(name)) by {
            assert forall|n: Seq<char>| self.names().contains(n) <==> table_names(t).insert(name).contains(n) by {
                if table_names(t).contains(n) && n != name {
                    let a = choose|j: int| 0 <= j < t.len() && t[j].0 == n;
                    assert(u[a].0 == n);
                }
                if self.names().contains(n) && n != name {
                    let a = choose|j: int| 0 <= j < u.len() && u[j].0 == n;
                    assert(t[a].0 == n);
                }
            }
        }
    }
}

impl VariableTable {
    /// Sets the variable named `name` to a fresh `int` holding `value`.
    pub fn set_int_variable(&mut self, name: &str, value: i32)
        ensures
            final(self).value(name@) matches Some(u) && u.type_ == CoreDataType::Int && u.stored_int() == value
                && u.name is None && !u.is_system && !u.spec_has_next(),
            forall|n: Seq<char>| n != name@ ==> #[trigger] final(self).value(n) == old(self).value(n),
            final(self).names() == old(self).names().insert(name@),
    {
        let mut v = UserVariable::new();
        v.set_int(value);
        self.set_variable(name, v);
    }

    /// Sets the variable named `name` to a fresh `float` whose bits are
    /// `bits`.
    pub fn set_float_variable_bits(&mut self, name: &str, bits: u32)
        ensures
            final(self).value(name@) matches Some(u) && u.type_ == CoreDataType::Float && u.stored_float_bits() == bits
                && u.name is None && !u.is_system && !u.spec_has_next(),
            forall|n: Seq<char>| n != name@ ==> #[trigger] final(self).value(n) == old(self).value(n),
            final(self).names() == old(self).names().insert(name@),
    {
        let mut v = UserVariable::new();
        v.set_float_bits(bits);
        self.set_variable(name, v);
    }

    /// The variable named `name` as an `int`, if there is one.
    pub fn get_int(&self, name: &str) -> (r: Option<i32>)
        ensures
            match self.value(name@) {
                Some(u) => r == Some(u.int_value()),
                None => r is None,
            },
    {
        match self.get_variable(name) {
            Some(v) => Some(v.as_i32()),
            None => None,
        }
    }

    /// The variable named `name` as a `float`, by its bits, if there is
    /// one.
    pub fn get_float_bits(&self, name: &str) -> (r: Option<u32>)
        ensures
            match self.value(name@) {
                Some(u) => r == Some(u.float_bits_value()),
                None => r is None,
            },
    {
        match self.get_variable(name) {
            Some(v) => Some(v.as_f32_bits()),
            None => None,
        }
    }

    /// The names of the variables, each once (in no particular order).
    pub fn list_variables(&self) -> (r: Vec<String>)
        ensures
            r@.map_values(|s: String| s@).no_duplicates(),
            r@.map_values(|s: String| s@).to_set() == self.names(),
    {
        proof {
            use_type_invariant(self);
        }
        let ghost t = self.view_entries();
        let mut r: Vec<String> = Vec::new();
        let mut i: usize = 0;
        while i < self.entries.len()
            invariant
                i <= self.entries@.len(),
                t == entries_view(self.entries@),
                distinct_names(t),
                r@.len() == i,
                forall|j: int| 0 <= j < i ==> (#[trigger] r@[j])@ == t[j].0,
            decreases self.entries@.len() - i,
        {
            assert(t[i as int].0 == self.entries@[i as int].0@);
            r.push(string_from(self.entries[i].0.as_str()));
            i = i + 1;
        }
        let ghost rv = r@.map_values(|s: String| s@);
        assert(rv.to_set() =~= self.names()) by {
            assert forall|n: Seq<char>| rv.to_set().contains(n) <==> self.names().contains(n) by {
                if self.names().contains(n) {
                    let j = choose|j: int| 0 <= j < t.len() && t[j].0 == n;
                    assert(rv[j] == n);
                }
                if rv.to_set().contains(n) {
                    let j = choose|j: int| 0 <= j < rv.len() && rv[j] == n;
                    assert(t[j].0 == n);
                }
            }
        }
        r
    }
}

/// Distinct names: there are as many names as entries.
proof fn lemma_names_len(t: TableEntries)
    requires
        distinct_names(t),
    ensures
        table_names(t).finite(),
        table_names(t).len() == t.len(),
{
    let ns = t.map_values(|e: (Seq<char>, UserVariable)| e.0);
    assert(ns.no_duplicates());
    ns.unique_seq_to_set();
    assert(ns.to_set() =~= table_names(t)) by {
        assert forall|n: Seq<char>| ns.to_set().contains(n) <==> table_names(t).contains(n) by {
            if table_names(t).contains(n) {
                let i = choose|i: int| 0 <= i < t.len() && t[i].0 == n;
                assert(ns[i] == n);
            }
            if ns.to_set().contains(n) {
                let i = choose|i: int| 0 <= i < ns.len() && ns[i] == n;
                assert(t[i].0 == n);
            }
        }
    }
}

/// A copied value of a variable.  Floats are given by their bits; the
/// types that are not values keep their raw bytes.
#[derive(Debug, Clone, Copy, PartialEq)]
pub enum ConfigVariableValue {
    Char(i8),
    Int(i32),
    Long(i64),
    Float(u32),
    Range(Range),
    Raw([u8; 16]),
}

/// One copied variable.
pub struct ConfigVariableSnapshot {
    pub name: String,
    pub type_: CoreDataType,
    pub value: ConfigVariableValue,
    pub is_system: bool,
}

/// The copied variables, in name order, and whether some were left out.
pub struct ConfigVariableSnapshotSet {
    pub variables: Vec<ConfigVariableSnapshot>,
    pub truncated: bool,
}

/// The copied value of a variable, by its type.
pub open spec fn snapshot_value(u: UserVariable) -> ConfigVariableValue {
    match u.type_ {
        CoreDataType::Char => ConfigVariableValue::Char(u.char_value()),
        CoreDataType::Int => ConfigVariableValue::Int(u.int_value()),
        CoreDataType::Long => ConfigVariableValue::Long(u.long_value()),
        CoreDataType::Float => ConfigVariableValue::Float(u.float_bits_value()),
        CoreDataType::Range => ConfigVariableValue::Range(u.range_value()),
        _ => ConfigVariableValue::Raw(u.data),
    }
}

/// `m` occurs in `idx`.
pub open spec fn covered(idx: Seq<usize>, m: int) -> bool {
    exists|a: int| 0 <= a < idx.len() && idx[a] == m
}

/// Each text comes before the next.
pub open spec fn strictly_sorted(s: Seq<Seq<char>>) -> bool {
    forall|i: int, j: int| 0 <= i < j < s.len() ==> text_less(s[i], s[j])
}

fn snapshot_of(name: &String, u: &UserVariable) -> (r: ConfigVariableSnapshot)
    ensures
        r.name@ == name@,
        r.type_ == u.type_,
        r.value == snapshot_value(*u),
        r.is_system == u.is_system,
{
    let value = match u.type_ {
        CoreDataType::Char => ConfigVariableValue::Char(u.as_char()),
        CoreDataType::Int => ConfigVariableValue::Int(u.as_i32()),
        CoreDataType::Long => ConfigVariableValue::Long(u.as_i64()),
        CoreDataType::Float => ConfigVariableValue::Float(u.as_f32_bits()),
        CoreDataType::Range => ConfigVariableValue::Range(u.as_range()),
        _ => ConfigVariableValue::Raw(u.data),
    };
    ConfigVariableSnapshot { name: string_from(name.as_str()), type_: u.type_, value, is_system: u.is_system }
}

impl VariableTable {
    /// The positions of the variables in name order.
    fn name_order(&self) -> (idx: Vec<usize>)
        ensures
            idx@.len() == self.view_entries().len(),
            forall|a: int| 0 <= a < idx@.len() ==> (#[trigger] idx@[a]) < self.view_entries().len(),
            forall|m: int| 0 <= m < self.view_entries().len() ==> #[trigger] covered(idx@, m),
            forall|a: int, b: int|
                0 <= a < b < idx@.len() ==> text_less(
                    self.view_entries()[#[trigger] idx@[a] as int].0,
                    self.view_entries()[#[trigger] idx@[b] as int].0,
                ),
    {
        proof {
            use_type_invariant(self);
        }
        let ghost t = self.view_entries();
        let n = self.entries.len();
        let mut idx: Vec<usize> = Vec::new();
        let mut k: usize = 0;
        while k < n
            invariant
                k <= n,
                n == t.len(),
                t == entries_view(self.entries@),
                distinct_names(t),
                idx@.len() == k,
                forall|a: int| 0 <= a < idx@.len() ==> (#[trigger] idx@[a]) < k,
                forall|m: int| 0 <= m < k ==> #[trigger] covered(idx@, m),
                forall|a: int, b: int|
                    0 <= a < b < idx@.len() ==> text_less(t[#[trigger] idx@[a] as int].0, t[#[trigger] idx@[b] as int].0),
            decreases n - k,
        {
            let name = self.entries[k].0.as_str();
            assert(t[k as int].0 == name@);
            let mut p: usize = 0;
            while p < idx.len() && !text_lt(name, self.entries[idx[p]].0.as_str())
                invariant
                    p <= idx@.len(),
                    k < n,
                    n == t.len(),
                    t == entries_view(self.entries@),
                    distinct_names(t),
                    t[k as int].0 == name@,
                    forall|a: int| 0 <= a < idx@.len() ==> (#[trigger] idx@[a]) < k,
                    forall|a: int| 0 <= a < p ==> text_less(t[#[trigger] idx@[a] as int].0, name@),
                decreases idx@.len() - p,
            {
                let j = idx[p];
                assert(t[j as int].0 == self.entries@[j as int].0@);
                proof {
                    assert(t[j as int].0 != name@);
                    lemma_text_less_total(t[j as int].0, name@);
                }
                p = p + 1;
            }
            let ghost old_idx = idx@;
            proof {
                if p < old_idx.len() {
                    let j = old_idx[p as int];
                    assert(t[j as int].0 == self.entries@[j as int].0@);
                    assert forall|b: int| p <= b < old_idx.len() implies text_less(name@, t[#[trigger] old_idx[b] as int].0) by {
                        if b > p {
                            lemma_text_less_transitive(name@, t[j as int].0, t[old_idx[b] as int].0);
                        }
                    }
                }
            }
            idx.insert(p, k);
            assert forall|a: int, b: int|
                0 <= a < b < idx@.len() implies text_less(t[#[trigger] idx@[a] as int].0, t[#[trigger] idx@[b] as int].0) by {
                if b < p {
                    assert(idx@[a] == old_idx[a] && idx@[b] == old_idx[b]);
                } else if b == p {
                    assert(idx@[a] == old_idx[a]);
                } else if a < p {
                    assert(idx@[b] == old_idx[b - 1]);
                    assert(idx@[a] == old_idx[a]);
                    if a < p {
                        lemma_text_less_transitive(t[old_idx[a] as int].0, name@, t[old_idx[b - 1] as int].0);
                    }
                } else if a == p {
                    assert(idx@[b] == old_idx[b - 1]);
                } else {
                    assert(idx@[a] == old_idx[a - 1] && idx@[b] == old_idx[b - 1]);
                }
            }
            assert forall|m: int| 0 <= m < k + 1 implies #[trigger] covered(idx@, m) by {
                if m == k {
                    assert(idx@[p as int] == k);
                } else {
                    assert(covered(old_idx, m));
                    let a = choose|a: int| 0 <= a < old_idx.len() && old_idx[a] == m;
                    if a < p {
                        assert(idx@[a] == m);
                    } else {
                        assert(idx@[a + 1] == m);
                    }
                }
            }
            assert forall|a: int| 0 <= a < idx@.len() implies (#[trigger] idx@[a]) < k + 1 by {
                if a < p {
                    assert(idx@[a] == old_idx[a]);
                } else if a > p {
                    assert(idx@[a] == old_idx[a - 1]);
                }
            }
            k = k + 1;
        }
        idx
    }

    /// A copy of the variables for a renderer: the first
    /// `MAX_CONFIG_VARIABLE_SNAPSHOT` in name order, each with its type,
    /// value and whether it is a system variable; `truncated` when there
    /// were more.
    pub fn variable_snapshot(&self) -> (r: ConfigVariableSnapshotSet)
        ensures
            self.names().finite(),
            r.truncated == (self.names().len() > MAX_CONFIG_VARIABLE_SNAPSHOT),
            exists|s: Seq<Seq<char>>|
                #![trigger strictly_sorted(s)]
                strictly_sorted(s) && s.len() == self.names().len() && s.to_set() == self.names() && r.variables@.len() == (
                if s.len() > MAX_CONFIG_VARIABLE_SNAPSHOT {
                    MAX_CONFIG_VARIABLE_SNAPSHOT as int
                } else {
                    s.len() as int
                }) && forall|k: int|
                    0 <= k < r.variables@.len() ==> (#[trigger] r.variables@[k]).name@ == s[k] && (self.value(s[k]) matches Some(
                        u,
                    ) && r.variables@[k].type_ == u.type_ && r.variables@[k].value == snapshot_value(u)
                        && r.variables@[k].is_system == u.is_system),
    {
        proof {
            use_type_invariant(self);
        }
        let ghost t = self.view_entries();
        let idx = self.name_order();
        let n = idx.len();
        let limit = if n > MAX_CONFIG_VARIABLE_SNAPSHOT {
            MAX_CONFIG_VARIABLE_SNAPSHOT
        } else {
            n
        };
        let ghost s = idx@.map_values(|i: usize| t[i as int].0);
        let mut out: Vec<ConfigVariableSnapshot> = Vec::new();
        let mut k: usize = 0;
        while k < limit
            invariant
                k <= limit,
                limit <= n,
                n == idx@.len(),
                n == t.len(),
                t == entries_view(self.entries@),
                distinct_names(t),
                s == idx@.map_values(|i: usize| t[i as int].0),
                forall|a: int| 0 <= a < idx@.len() ==> (#[trigger] idx@[a]) < t.len(),
                out@.len() == k,
                forall|j: int|
                    0 <= j < k ==> (#[trigger] out@[j]).name@ == s[j] && (self.value(s[j]) matches Some(u)
                        && out@[j].type_ == u.type_ && out@[j].value == snapshot_value(u) && out@[j].is_system
                        == u.is_system),
            decreases limit - k,
        {
            let i = idx[k];
            assert(t[i as int] == (self.entries@[i as int].0@, self.entries@[i as int].1));
            proof {
                let c = choose|j: int| 0 <= j < t.len() && t[j].0 == t[i as int].0;
                assert(c == i);
            }
            out.push(snapshot_of(&self.entries[i].0, &self.entries[i].1));
            k = k + 1;
        }
        proof {
            lemma_names_len(t);
            assert(strictly_sorted(s));
            assert(s.to_set() =~= self.names()) by {
                assert forall|x: Seq<char>| s.to_set().contains(x) <==> self.names().contains(x) by {
                    if self.names().contains(x) {
                        let m = choose|m: int| 0 <= m < t.len() && t[m].0 == x;
                        assert(covered(idx@, m));
                        let a = choose|a: int| 0 <= a < idx@.len() && idx@[a] == m;
                        assert(s[a] == x);
                    }
                    if s.to_set().contains(x) {
                        let a = choose|a: int| 0 <= a < s.len() && s[a] == x;
                        assert(t[idx@[a] as int].0 == x);
                    }
                }
            }
        }
        ConfigVariableSnapshotSet { variables: out, truncated: n > MAX_CONFIG_VARIABLE_SNAPSHOT }
    }
}

} // verus!
