//! External entities of a configuration document: the `<!ENTITY name
//! SYSTEM "file">` declarations of its document type, and putting each
//! included file's text in place of its `&name;` references.  Reading the
//! files is left to the caller.

use vstd::prelude::*;
use crate::text::{push_char, string_from, trim, trim_spec, has_prefix};

verus! {

/// `pattern` occurs in `text` at position `i`.
pub open spec fn found_at(text: Seq<char>, pattern: Seq<char>, i: int) -> bool {
    0 <= i && i + pattern.len() <= text.len() && text.subrange(i, i + pattern.len()) == pattern
}

/// The first position at or after `i` where `pattern` occurs in `text`.
pub open spec fn occurrence_from(text: Seq<char>, pattern: Seq<char>, i: int) -> Option<int>
    decreases text.len() + 1 - i,
{
    if i < 0 || i + pattern.len() > text.len() {
        None
    } else if found_at(text, pattern, i) {
        Some(i)
    } else {
        occurrence_from(text, pattern, i + 1)
    }
}

/// Where an occurrence is found, the pattern is there, at or after the
/// starting point.
pub proof fn lemma_occurrence_bounds(text: Seq<char>, pattern: Seq<char>, i: int)
    ensures
        occurrence_from(text, pattern, i) matches Some(j) ==> i <= j && j + pattern.len() <= text.len() && found_at(
            text,
            pattern,
            j,
        ),
    decreases text.len() + 1 - i,
{
    if !(i < 0 || i + pattern.len() > text.len()) && !found_at(text, pattern, i) {
        lemma_occurrence_bounds(text, pattern, i + 1);
    }
}

/// The characters of a text.
pub fn chars_of(s: &str) -> (v: Vec<char>)
    ensures
        v@ == s@,
{
    let n = s.unicode_len();
    let mut v: Vec<char> = Vec::new();
    let mut i: usize = 0;
    while i < n
        invariant
            i <= n,
            n == s@.len(),
            v@ == s@.take(i as int),
        decreases n - i,
    {
        v.push(s.get_char(i));
        i = i + 1;
        assert(v@ =~= s@.take(i as int));
    }
    assert(v@ =~= s@);
    v
}

/// The text of some characters.
pub fn text_of(v: &[char]) -> (s: String)
    ensures
        s@ == v@,
{
    let mut s = String::new();
    assert(s@ =~= v@.take(0));
    let mut i: usize = 0;
    while i < v.len()
        invariant
            i <= v@.len(),
            s@ == v@.take(i as int),
        decreases v@.len() - i,
    {
        push_char(&mut s, v[i]);
        i = i + 1;
        assert(s@ =~= v@.take(i as int));
    }
    assert(s@ =~= v@);
    s
}

/// Whether `pattern` occurs in `text` at `i`.
fn matches_at(text: &Vec<char>, pattern: &Vec<char>, i: usize) -> (r: bool)
    ensures
        r == found_at(text@, pattern@, i as int),
{
    if pattern.len() > text.len() || i > text.len() - pattern.len() {
        return false;
    }
    let tl = text.len();
    let mut k: usize = 0;
    while k < pattern.len()
        invariant
            tl == text@.len(),
            i + pattern@.len() <= text@.len(),
            k <= pattern@.len(),
            forall|q: int| 0 <= q < k ==> text@[i + q] == pattern@[q],
        decreases pattern@.len() - k,
    {
        if text[i + k] != pattern[k] {
            assert(text@.subrange(i as int, i + pattern@.len())[k as int] != pattern@[k as int]);
            return false;
        }
        k = k + 1;
    }
    assert(text@.subrange(i as int, i + pattern@.len()) =~= pattern@);
    true
}

/// The first position at or after `from` where `pattern` occurs in `text`.
pub fn find_from(text: &Vec<char>, pattern: &Vec<char>, from: usize) -> (r: Option<usize>)
    ensures
        match r {
            Some(j) => occurrence_from(text@, pattern@, from as int) == Some(j as int),
            None => occurrence_from(text@, pattern@, from as int) is None,
        },
{
    if pattern.len() > text.len() {
        return None;
    }
    let last = text.len() - pattern.len();
    let mut i = from;
    while i <= last
        invariant
            from <= i,
            last + pattern@.len() == text@.len(),
            occurrence_from(text@, pattern@, from as int) == occurrence_from(text@, pattern@, i as int),
        decreases last + 1 - i,
    {
        if matches_at(text, pattern, i) {
            return Some(i);
        }
        if i == last {
            assert(occurrence_from(text@, pattern@, i + 1) is None);
            return None;
        }
        i = i + 1;
    }
    None
}

/// The characters from `a` to `b`.
pub(crate) fn chars_between(v: &Vec<char>, a: usize, b: usize) -> (r: Vec<char>)
    requires
        a <= b <= v@.len(),
    ensures
        r@ == v@.subrange(a as int, b as int),
{
    let mut r: Vec<char> = Vec::new();
    let mut i = a;
    while i < b
        invariant
            a <= i <= b,
            b <= v@.len(),
            r@ == v@.subrange(a as int, i as int),
        decreases b - i,
    {
        r.push(v[i]);
        i = i + 1;
        assert(r@ =~= v@.subrange(a as int, i as int));
    }
    r
}

/// Trimmed characters (see `trim_spec`).
fn trim_chars(v: &Vec<char>) -> (r: Vec<char>)
    ensures
        r@ == trim_spec(v@),
{
    let s = text_of(v.as_slice());
    chars_of(trim(s.as_str()))
}

/// The entity a line of a document type declares, if it declares one:
/// `<!ENTITY name SYSTEM "file"` gives the name (trimmed) and the file
/// (up to the next `"`).
pub open spec fn entity_of(line: Seq<char>) -> Option<(Seq<char>, Seq<char>)> {
    let l = trim_spec(line);
    let decl = "<!ENTITY "@;
    if has_prefix(l, decl) {
        let rest = l.skip(decl.len() as int);
        let sys = " SYSTEM "@;
        match occurrence_from(rest, sys, 0) {
            Some(j) => {
                let r2 = trim_spec(rest.skip(j + sys.len()));
                if r2.len() > 0 && r2[0] == '"' {
                    let q = r2.skip(1);
                    let file = match occurrence_from(q, seq!['"'], 0) {
                        Some(k) => q.take(k),
                        None => q,
                    };
                    Some((trim_spec(rest.take(j)), file))
                } else {
                    None
                }
            },
            None => None,
        }
    } else {
        None
    }
}

/// The entities declared by the lines of `s`, in order.
pub open spec fn entities_in(s: Seq<char>) -> Seq<(Seq<char>, Seq<char>)>
    decreases s.len(),
{
    if s.len() == 0 {
        Seq::empty()
    } else {
        proof {
            lemma_occurrence_bounds(s, seq!['\n'], 0);
        }
        let (line, rest) = match occurrence_from(s, seq!['\n'], 0) {
            Some(i) => (s.take(i), s.skip(i + 1)),
            None => (s, Seq::empty()),
        };
        match entity_of(line) {
            Some(e) => seq![e] + entities_in(rest),
            None => entities_in(rest),
        }
    }
}

fn entity_of_line(line: &Vec<char>) -> (r: Option<(String, String)>)
    ensures
        match entity_of(line@) {
            Some(e) => r matches Some(x) && x.0@ == e.0 && x.1@ == e.1,
            None => r is None,
        },
{
    let l = trim_chars(line);
    let decl = chars_of("<!ENTITY ");
    if decl.len() > l.len() || !matches_at(&l, &decl, 0) {
        proof {
            if has_prefix(l@, decl@) {
                assert(l@.subrange(0, decl@.len() as int) =~= l@.take(decl@.len() as int));
            }
        }
        return None;
    }
    assert(l@.take(decl@.len() as int) =~= l@.subrange(0, decl@.len() as int));
    let rest = chars_between(&l, decl.len(), l.len());
    assert(rest@ =~= l@.skip(decl@.len() as int));
    let sys = chars_of(" SYSTEM ");
    let j = match find_from(&rest, &sys, 0) {
        Some(j) => j,
        None => return None,
    };
    proof {
        lemma_occurrence_bounds(rest@, sys@, 0);
    }
    let after = chars_between(&rest, j + sys.len(), rest.len());
    assert(after@ =~= rest@.skip(j + sys@.len()));
    let r2 = trim_chars(&after);
    if r2.len() == 0 || r2[0] != '"' {
        return None;
    }
    let q = chars_between(&r2, 1, r2.len());
    assert(q@ =~= r2@.skip(1));
    let quote = chars_of("\"");
    proof {
        reveal_strlit("\"");
    }
    assert(quote@ =~= seq!['"']);
    let file = match find_from(&q, &quote, 0) {
        Some(k) => {
            proof {
                lemma_occurrence_bounds(q@, quote@, 0);
            }
            let f = chars_between(&q, 0, k);
            assert(f@ =~= q@.take(k as int));
            f
        },
        None => q,
    };
    let name = chars_between(&rest, 0, j);
    assert(name@ =~= rest@.take(j as int));
    let name = trim_chars(&name);
    Some((text_of(name.as_slice()), text_of(file.as_slice())))
}

/// The entities declared by the lines of `s` (see `entities_in`).
fn entities_of_lines(s: &Vec<char>) -> (r: Vec<(String, String)>)
    ensures
        r@.map_values(|e: (String, String)| (e.0@, e.1@)) == entities_in(s@),
{
    let mut out: Vec<(String, String)> = Vec::new();
    let mut rest: Vec<char> = chars_between(s, 0, s.len());
    assert(rest@ =~= s@);
    let nl = chars_of("\n");
    proof {
        reveal_strlit("\n");
    }
    assert(nl@ =~= seq!['\n']);
    assert(out@.map_values(|e: (String, String)| (e.0@, e.1@)) =~= Seq::<(Seq<char>, Seq<char>)>::empty());
    while rest.len() > 0
        invariant
            nl@ == seq!['\n'],
            entities_in(s@) == out@.map_values(|e: (String, String)| (e.0@, e.1@)) + entities_in(rest@),
        decreases rest@.len(),
    {
        proof {
            lemma_occurrence_bounds(rest@, nl@, 0);
        }
        let (line, next) = match find_from(&rest, &nl, 0) {
            Some(i) => {
                let line = chars_between(&rest, 0, i);
                let next = chars_between(&rest, i + 1, rest.len());
                assert(line@ =~= rest@.take(i as int));
                assert(next@ =~= rest@.skip(i + 1));
                (line, next)
            },
            None => {
                let line = chars_between(&rest, 0, rest.len());
                assert(line@ =~= rest@);
                (line, Vec::new())
            },
        };
        let ghost before = out@.map_values(|e: (String, String)| (e.0@, e.1@));
        match entity_of_line(&line) {
            Some(e) => {
                let ghost ev = (e.0@, e.1@);
                out.push(e);
                assert(out@.map_values(|e: (String, String)| (e.0@, e.1@)) =~= before.push(ev));
                assert(before + (seq![ev] + entities_in(next@)) =~= before.push(ev) + entities_in(next@));
            },
            None => {},
        }
        rest = next;
    }
    assert(out@.map_values(|e: (String, String)| (e.0@, e.1@)) + Seq::<(Seq<char>, Seq<char>)>::empty() =~= out@.map_values(
        |e: (String, String)| (e.0@, e.1@),
    ));
    out
}

/// A document with its document type declaration taken out (from the
/// first `<!DOCTYPE` to the first `]>` after it), and the external
/// entities that declaration declares; a document without one is kept
/// whole.
pub open spec fn doctype_split(x: Seq<char>) -> (Seq<char>, Seq<(Seq<char>, Seq<char>)>) {
    match occurrence_from(x, "<!DOCTYPE"@, 0) {
        Some(start) => match occurrence_from(x, "]>"@, start) {
            Some(close) => (x.take(start) + x.skip(close + 2), entities_in(x.subrange(start, close + 2))),
            None => (x, Seq::empty()),
        },
        None => (x, Seq::empty()),
    }
}

/// Takes the document type declaration out of a document and reads the
/// external entities it declares (see `doctype_split`).
pub fn doctype_entities(xml: &str) -> (r: (String, Vec<(String, String)>))
    ensures
        r.0@ == doctype_split(xml@).0,
        r.1@.map_values(|e: (String, String)| (e.0@, e.1@)) == doctype_split(xml@).1,
{
    let x = chars_of(xml);
    let open = chars_of("<!DOCTYPE");
    let close = chars_of("]>");
    proof {
        reveal_strlit("]>");
    }
    assert(x@ == xml@ && open@ == "<!DOCTYPE"@ && close@ == "]>"@);
    assert(close@.len() == 2);
    let start = match find_from(&x, &open, 0) {
        Some(s) => s,
        None => {
            let r = (string_from(xml), Vec::new());
            assert(r.1@.map_values(|e: (String, String)| (e.0@, e.1@)) =~= Seq::<(Seq<char>, Seq<char>)>::empty());
            return r;
        },
    };
    proof {
        lemma_occurrence_bounds(x@, open@, 0);
        assert(occurrence_from(x@, open@, 0) == Some(start as int));
    }
    let c = match find_from(&x, &close, start) {
        Some(c) => c,
        None => {
            let r = (string_from(xml), Vec::new());
            assert(r.1@.map_values(|e: (String, String)| (e.0@, e.1@)) =~= Seq::<(Seq<char>, Seq<char>)>::empty());
            return r;
        },
    };
    proof {
        lemma_occurrence_bounds(x@, close@, start as int);
    }
    let xl = x.len();
    assert(c + 2 <= xl);
    let subset = chars_between(&x, start, c + 2);
    let entities = entities_of_lines(&subset);
    let mut kept = chars_between(&x, 0, start);
    let tail = chars_between(&x, c + 2, x.len());
    let ghost k0 = kept@;
    let mut i: usize = 0;
    while i < tail.len()
        invariant
            i <= tail@.len(),
            kept@ == k0 + tail@.take(i as int),
        decreases tail@.len() - i,
    {
        kept.push(tail[i]);
        i = i + 1;
        assert(kept@ =~= k0 + tail@.take(i as int));
    }
    assert(tail@.take(i as int) =~= tail@);
    assert(x@.take(start as int) =~= x@.subrange(0, start as int));
    assert(x@.skip(c + 2) =~= x@.subrange(c + 2, x@.len() as int));
    (text_of(kept.as_slice()), entities)
}

/// `str::replace`: each occurrence of `pattern`, from the left and not
/// overlapping, replaced by `with`.
pub open spec fn replace_spec(t: Seq<char>, pattern: Seq<char>, with: Seq<char>) -> Seq<char>
    decreases t.len(),
{
    if t.len() == 0 || pattern.len() == 0 {
        t
    } else if found_at(t, pattern, 0) {
        with + replace_spec(t.skip(pattern.len() as int), pattern, with)
    } else {
        seq![t[0]] + replace_spec(t.skip(1), pattern, with)
    }
}

/// Replaces each occurrence of `pattern` in `text` by `with` (see
/// `replace_spec`).
pub fn replace_text(text: &str, pattern: &str, with: &str) -> (r: String)
    requires
        pattern@.len() > 0,
    ensures
        r@ == replace_spec(text@, pattern@, with@),
{
    let t = chars_of(text);
    let p = chars_of(pattern);
    let w = chars_of(with);
    let mut out: Vec<char> = Vec::new();
    let mut i: usize = 0;
    assert(t@.skip(0) =~= t@);
    assert(out@ + replace_spec(t@, p@, w@) =~= replace_spec(t@, p@, w@));
    while i < t.len()
        invariant
            i <= t@.len(),
            p@.len() > 0,
            replace_spec(t@, p@, w@) == out@ + replace_spec(t@.skip(i as int), p@, w@),
        decreases t@.len() - i,
    {
        let ghost rest = t@.skip(i as int);
        let ghost before = out@;
        if matches_at(&t, &p, i) {
            assert(rest.subrange(0, p@.len() as int) =~= t@.subrange(i as int, i + p@.len()));
            assert(found_at(rest, p@, 0));
            let mut k: usize = 0;
            while k < w.len()
                invariant
                    k <= w@.len(),
                    out@ == before + w@.take(k as int),
                decreases w@.len() - k,
            {
                out.push(w[k]);
                k = k + 1;
                assert(out@ =~= before + w@.take(k as int));
            }
            assert(w@.take(k as int) =~= w@);
            assert(rest.skip(p@.len() as int) =~= t@.skip(i + p@.len()));
            assert(before + (w@ + replace_spec(t@.skip(i + p@.len()), p@, w@)) =~= out@ + replace_spec(
                t@.skip(i + p@.len()),
                p@,
                w@,
            ));
            i = i + p.len();
        } else {
            proof {
                if found_at(rest, p@, 0) {
                    assert(rest.subrange(0, p@.len() as int) =~= t@.subrange(i as int, i + p@.len()));
                }
            }
            out.push(t[i as usize]);
            assert(rest.skip(1) =~= t@.skip(i + 1));
            assert(before + (seq![rest[0]] + replace_spec(t@.skip(i + 1), p@, w@)) =~= out@ + replace_spec(
                t@.skip(i + 1),
                p@,
                w@,
            ));
            i = i + 1;
        }
    }
    assert(out@ + replace_spec(t@.skip(i as int), p@, w@) =~= out@);
    text_of(out.as_slice())
}

} // verus!
