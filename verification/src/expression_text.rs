//! The shape of a configuration expression: a first operand, then
//! operators (`/`, `*`, `+`, `-`), each with its operand, read left to
//! right.  An operator character at the very start belongs to the first
//! operand (a sign).

use vstd::prelude::*;
use crate::includes::{chars_between, chars_of, text_of, find_from, occurrence_from, lemma_occurrence_bounds};

verus! {

pub open spec fn is_operator(c: char) -> bool {
    c == '/' || c == '*' || c == '+' || c == '-'
}

/// The first operator at or after position `i`, not counting position 0.
pub open spec fn next_operator(e: Seq<char>, i: int) -> Option<int>
    decreases e.len() - i,
{
    if i < 1 || i >= e.len() {
        None
    } else if is_operator(e[i]) {
        Some(i)
    } else {
        next_operator(e, i + 1)
    }
}

/// The operator found is one, at or after the starting point.
pub proof fn lemma_next_operator(e: Seq<char>, i: int)
    ensures
        next_operator(e, i) matches Some(j) ==> 1 <= i <= j < e.len() && is_operator(e[j]),
    decreases e.len() - i,
{
    if !(i < 1 || i >= e.len()) && !is_operator(e[i]) {
        lemma_next_operator(e, i + 1);
    }
}

/// The operations from the operator at `p` on: each operator with the
/// text up to the next operator (or the end).
pub open spec fn operations_from(e: Seq<char>, p: int) -> Seq<(char, Seq<char>)>
    decreases e.len() - p,
{
    if p < 0 || p >= e.len() {
        Seq::empty()
    } else {
        proof {
            lemma_next_operator(e, p + 1);
        }
        match next_operator(e, p + 1) {
            Some(q) => seq![(e[p], e.subrange(p + 1, q))] + operations_from(e, q),
            None => seq![(e[p], e.subrange(p + 1, e.len() as int))],
        }
    }
}

/// An expression split into its first operand and its operations.
pub open spec fn expression_parts(e: Seq<char>) -> (Seq<char>, Seq<(char, Seq<char>)>) {
    match next_operator(e, 1) {
        Some(p) => (e.take(p), operations_from(e, p)),
        None => (e, Seq::empty()),
    }
}

fn find_operator(e: &Vec<char>, from: usize) -> (r: Option<usize>)
    requires
        from >= 1,
    ensures
        match r {
            Some(j) => next_operator(e@, from as int) == Some(j as int),
            None => next_operator(e@, from as int) is None,
        },
{
    let n = e.len();
    let mut i = from;
    while i < n
        invariant
            1 <= from <= i,
            n == e@.len(),
            next_operator(e@, from as int) == next_operator(e@, i as int),
        decreases n - i,
    {
        let c = e[i];
        if c == '/' || c == '*' || c == '+' || c == '-' {
            return Some(i);
        }
        i = i + 1;
    }
    None
}

pub open spec fn operations_view(ops: Seq<(char, String)>) -> Seq<(char, Seq<char>)> {
    ops.map_values(|o: (char, String)| (o.0, o.1@))
}

/// Splits an expression into its first operand and its operations (see
/// `expression_parts`); the operands are not trimmed.
pub fn split_expression(expr: &str) -> (r: (String, Vec<(char, String)>))
    ensures
        r.0@ == expression_parts(expr@).0,
        operations_view(r.1@) == expression_parts(expr@).1,
{
    let e = chars_of(expr);
    let n = e.len();
    let first = match find_operator(&e, 1) {
        Some(p) => p,
        None => {
            let r = (text_of(e.as_slice()), Vec::new());
            assert(operations_view(r.1@) =~= Seq::<(char, Seq<char>)>::empty());
            return r;
        },
    };
    proof {
        lemma_next_operator(e@, 1);
    }
    let start = chars_between(&e, 0, first);
    assert(start@ =~= e@.take(first as int));
    let mut ops: Vec<(char, String)> = Vec::new();
    let mut p = first;
    assert(operations_view(ops@) + operations_from(e@, p as int) =~= operations_from(e@, first as int));
    loop
        invariant
            n == e@.len(),
            1 <= p < n,
            e@ == expr@,
            next_operator(e@, 1) == Some(first as int),
            start@ == e@.take(first as int),
            operations_view(ops@) + operations_from(e@, p as int) == operations_from(e@, first as int),
        decreases n - p,
    {
        let ghost before = operations_view(ops@);
        proof {
            lemma_next_operator(e@, p + 1);
        }
        match find_operator(&e, p + 1) {
            Some(q) => {
                let operand = chars_between(&e, p + 1, q);
                let item = (e[p], text_of(operand.as_slice()));
                ops.push(item);
                assert(operations_view(ops@) =~= before.push((e@[p as int], e@.subrange(p + 1, q as int))));
                assert(before + (seq![(e@[p as int], e@.subrange(p + 1, q as int))] + operations_from(e@, q as int))
                    =~= operations_view(ops@) + operations_from(e@, q as int));
                p = q;
            },
            None => {
                let operand = chars_between(&e, p + 1, n);
                let item = (e[p], text_of(operand.as_slice()));
                ops.push(item);
                assert(operations_view(ops@) =~= before.push((e@[p as int], e@.subrange(p + 1, n as int))));
                assert(operations_view(ops@) =~= operations_from(e@, first as int));
                return (text_of(start.as_slice()), ops);
            },
        }
    }
}

/// `s` without the spaces at its start.
pub open spec fn strip_front(s: Seq<char>) -> Seq<char>
    decreases s.len(),
{
    if s.len() > 0 && s[0] == ' ' {
        strip_front(s.drop_first())
    } else {
        s
    }
}

/// `s` without the spaces at its end.
pub open spec fn strip_back(s: Seq<char>) -> Seq<char>
    decreases s.len(),
{
    if s.len() > 0 && s.last() == ' ' {
        strip_back(s.drop_last())
    } else {
        s
    }
}

/// `str::trim_matches(' ')`: `s` without the spaces at either end.
pub open spec fn strip_spaces(s: Seq<char>) -> Seq<char> {
    strip_back(strip_front(s))
}

/// The assignment a piece of a condition or parameter list makes: the
/// text before its first `=` and the text after it, both stripped of
/// spaces; a piece without `=` makes none.
pub open spec fn assignment_of(piece: Seq<char>) -> Option<(Seq<char>, Seq<char>)> {
    match occurrence_from(piece, seq!['='], 0) {
        Some(i) => Some((strip_spaces(piece.take(i)), strip_spaces(piece.skip(i + 1)))),
        None => None,
    }
}

/// The assignments of a list of pieces joined by ` and `, in order.
pub open spec fn assignments_in(t: Seq<char>) -> Seq<(Seq<char>, Seq<char>)>
    decreases t.len(),
{
    let sep = " and "@;
    match occurrence_from(t, sep, 0) {
        Some(i) => {
            proof {
                lemma_occurrence_bounds(t, sep, 0);
                reveal_strlit(" and ");
            }
            let here = match assignment_of(t.take(i)) {
                Some(a) => seq![a],
                None => Seq::empty(),
            };
            here + assignments_in(t.skip(i + sep.len()))
        },
        None => match assignment_of(t) {
            Some(a) => seq![a],
            None => Seq::empty(),
        },
    }
}

/// Strips the spaces at both ends of `v` (see `strip_spaces`).
fn strip_chars(v: &Vec<char>) -> (r: Vec<char>)
    ensures
        r@ == strip_spaces(v@),
{
    let n = v.len();
    let mut a: usize = 0;
    assert(v@.skip(0) =~= v@);
    while a < n && v[a] == ' '
        invariant
            a <= n,
            n == v@.len(),
            strip_front(v@) == strip_front(v@.skip(a as int)),
        decreases n - a,
    {
        assert(v@.skip(a as int).drop_first() =~= v@.skip(a + 1));
        a = a + 1;
    }
    assert(strip_front(v@.skip(a as int)) == v@.skip(a as int));
    let mut b: usize = n;
    while b > a && v[b - 1] == ' '
        invariant
            a <= b <= n,
            n == v@.len(),
            strip_front(v@) == v@.skip(a as int),
            strip_back(v@.skip(a as int)) == strip_back(v@.subrange(a as int, b as int)),
        decreases b - a,
    {
        assert(v@.subrange(a as int, b as int).drop_last() =~= v@.subrange(a as int, b - 1));
        b = b - 1;
    }
    assert(v@.skip(a as int) =~= v@.subrange(a as int, n as int));
    let r = chars_between(v, a, b);
    assert(strip_back(v@.subrange(a as int, b as int)) == v@.subrange(a as int, b as int));
    r
}

fn assignment_of_piece(piece: &Vec<char>, eq: &Vec<char>) -> (r: Option<(String, String)>)
    requires
        eq@ == seq!['='],
    ensures
        match assignment_of(piece@) {
            Some(a) => r matches Some(x) && x.0@ == a.0 && x.1@ == a.1,
            None => r is None,
        },
{
    match find_from(piece, eq, 0) {
        Some(i) => {
            proof {
                lemma_occurrence_bounds(piece@, eq@, 0);
            }
            let pl = piece.len();
            assert(i + 1 <= pl);
            let left = chars_between(piece, 0, i);
            let right = chars_between(piece, i + 1, pl);
            assert(left@ =~= piece@.take(i as int));
            assert(right@ =~= piece@.skip(i + 1));
            let l = strip_chars(&left);
            let r = strip_chars(&right);
            Some((text_of(l.as_slice()), text_of(r.as_slice())))
        },
        None => None,
    }
}

pub open spec fn assignments_view(v: Seq<(String, String)>) -> Seq<(Seq<char>, Seq<char>)> {
    v.map_values(|a: (String, String)| (a.0@, a.1@))
}

/// The assignments of a binding's conditions or parameters (see
/// `assignments_in`).
pub fn assignments(text: &str) -> (r: Vec<(String, String)>)
    ensures
        assignments_view(r@) == assignments_in(text@),
{
    let sep = chars_of(" and ");
    let eq = chars_of("=");
    proof {
        reveal_strlit("=");
        reveal_strlit(" and ");
    }
    assert(eq@ =~= seq!['=']);
    let mut rest = chars_of(text);
    let mut out: Vec<(String, String)> = Vec::new();
    assert(assignments_view(out@) + assignments_in(rest@) =~= assignments_in(text@));
    loop
        invariant
            sep@ == " and "@,
            sep@.len() == 5,
            eq@ == seq!['='],
            assignments_view(out@) + assignments_in(rest@) == assignments_in(text@),
        decreases rest@.len(),
    {
        let ghost before = assignments_view(out@);
        match find_from(&rest, &sep, 0) {
            Some(i) => {
                proof {
                    lemma_occurrence_bounds(rest@, sep@, 0);
                }
                let piece = chars_between(&rest, 0, i);
                assert(piece@ =~= rest@.take(i as int));
                let rl = rest.len();
                assert(i + 5 <= rl);
                let next = chars_between(&rest, i + 5, rl);
                assert(next@ =~= rest@.skip(i + 5));
                let ghost here = match assignment_of(piece@) {
                    Some(a) => seq![a],
                    None => Seq::<(Seq<char>, Seq<char>)>::empty(),
                };
                match assignment_of_piece(&piece, &eq) {
                    Some(a) => {
                        let ghost av = (a.0@, a.1@);
                        out.push(a);
                        assert(assignments_view(out@) =~= before.push(av));
                        assert(here =~= seq![av]);
                    },
                    None => {
                        assert(assignments_view(out@) =~= before + here);
                    },
                }
                assert(assignments_view(out@) =~= before + here);
                assert(before + (here + assignments_in(next@)) =~= assignments_view(out@) + assignments_in(next@));
                rest = next;
            },
            None => {
                match assignment_of_piece(&rest, &eq) {
                    Some(a) => {
                        let ghost av = (a.0@, a.1@);
                        out.push(a);
                        assert(assignments_view(out@) =~= before.push(av));
                        assert(assignments_view(out@) =~= before + seq![av]);
                    },
                    None => {
                        assert(before + Seq::<(Seq<char>, Seq<char>)>::empty() =~= before);
                    },
                }
                return out;
            },
        }
    }
}

} // verus!
