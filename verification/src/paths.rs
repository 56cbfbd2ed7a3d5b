//! Unix path names as text: the final component, its stem, and equality
//! component by component.

use vstd::prelude::*;
use vstd::string::*;
use crate::text::{push_char, str_eq, string_from};

verus! {

/// Index of the last `/` in `p`.
pub open spec fn last_slash(p: Seq<char>) -> Option<int>
    decreases p.len(),
{
    if p.len() == 0 {
        None
    } else if p.last() == '/' {
        Some(p.len() - 1)
    } else {
        last_slash(p.drop_last())
    }
}

/// The final component of a path, as `Path::file_name` gives it: trailing
/// slashes and `.` components are skipped; there is none for an empty
/// path, the root alone, or a path that ends in `..`.
pub open spec fn path_file_name(p: Seq<char>) -> Option<Seq<char>>
    decreases p.len(),
{
    if p.len() == 0 {
        None
    } else if p.last() == '/' {
        path_file_name(p.drop_last())
    } else {
        let start = match last_slash(p) {
            Some(k) => k + 1,
            None => 0,
        };
        let seg = p.subrange(start, p.len() as int);
        if seg == seq!['.'] && 0 <= start < p.len() {
            path_file_name(p.subrange(0, start))
        } else if seg == seq!['.', '.'] {
            None
        } else {
            Some(seg)
        }
    }
}

/// Index of the last `.` in `s`.
pub open spec fn last_dot(s: Seq<char>) -> Option<int>
    decreases s.len(),
{
    if s.len() == 0 {
        None
    } else if s.last() == '.' {
        Some(s.len() - 1)
    } else {
        last_dot(s.drop_last())
    }
}

/// The stem of a file name: the part before the last `.`, unless the only
/// `.` starts the name.
pub open spec fn name_stem(name: Seq<char>) -> Seq<char> {
    match last_dot(name) {
        Some(k) => if k > 0 { name.take(k) } else { name },
        None => name,
    }
}

/// The stem of the final component of a path (`Path::file_stem`).
pub open spec fn path_file_stem(p: Seq<char>) -> Option<Seq<char>> {
    match path_file_name(p) {
        Some(n) => Some(name_stem(n)),
        None => None,
    }
}

/// Index of the first `/` in `p`.
pub open spec fn first_slash(p: Seq<char>) -> Option<int>
    decreases p.len(),
{
    if p.len() == 0 {
        None
    } else if p[0] == '/' {
        Some(0)
    } else {
        match first_slash(p.drop_first()) {
            Some(k) => Some(k + 1),
            None => None,
        }
    }
}

/// The named components of a path: the pieces between slashes, without
/// empty ones and without `.`.
pub open spec fn path_segments(p: Seq<char>) -> Seq<Seq<char>>
    decreases p.len(),
{
    match first_slash(p) {
        None => if p.len() == 0 || p == seq!['.'] { Seq::empty() } else { seq![p] },
        Some(k) => {
            let seg = p.take(k);
            let rest = if 0 <= k < p.len() { p.skip(k + 1) } else { Seq::empty() };
            (if seg.len() == 0 || seg == seq!['.'] { Seq::empty() } else { seq![seg] }) + path_segments(
                rest,
            )
        },
    }
}

/// Whether a path starts at the root.
pub open spec fn path_has_root(p: Seq<char>) -> bool {
    p.len() > 0 && p[0] == '/'
}

/// Whether a relative path starts with a `.` component.
pub open spec fn path_leading_cur_dir(p: Seq<char>) -> bool {
    p.len() > 0 && p[0] == '.' && (p.len() == 1 || p[1] == '/')
}

/// Two paths are equal when their components are (`Path`'s `==`).
pub open spec fn path_equal(a: Seq<char>, b: Seq<char>) -> bool {
    &&& path_has_root(a) == path_has_root(b)
    &&& path_leading_cur_dir(a) == path_leading_cur_dir(b)
    &&& path_segments(a) == path_segments(b)
}

proof fn lemma_last_slash_at(p: Seq<char>, k: int)
    requires
        0 <= k < p.len(),
        p[k] == '/',
        forall|j: int| k < j < p.len() ==> p[j] != '/',
    ensures
        last_slash(p) == Some(k),
    decreases p.len(),
{
    if p.last() != '/' {
        assert forall|j: int| k < j < p.drop_last().len() implies p.drop_last()[j] != '/' by {
            assert(p.drop_last()[j] == p[j]);
        }
        assert(p.drop_last()[k] == p[k]);
        lemma_last_slash_at(p.drop_last(), k);
    }
}

proof fn lemma_last_slash_none(p: Seq<char>)
    requires
        forall|j: int| 0 <= j < p.len() ==> p[j] != '/',
    ensures
        last_slash(p) is None,
    decreases p.len(),
{
    if p.len() > 0 {
        assert forall|j: int| 0 <= j < p.drop_last().len() implies p.drop_last()[j] != '/' by {
            assert(p.drop_last()[j] == p[j]);
        }
        lemma_last_slash_none(p.drop_last());
    }
}

proof fn lemma_last_dot_at(p: Seq<char>, k: int)
    requires
        0 <= k < p.len(),
        p[k] == '.',
        forall|j: int| k < j < p.len() ==> p[j] != '.',
    ensures
        last_dot(p) == Some(k),
    decreases p.len(),
{
    if p.last() != '.' {
        assert forall|j: int| k < j < p.drop_last().len() implies p.drop_last()[j] != '.' by {
            assert(p.drop_last()[j] == p[j]);
        }
        assert(p.drop_last()[k] == p[k]);
        lemma_last_dot_at(p.drop_last(), k);
    }
}

proof fn lemma_last_dot_none(p: Seq<char>)
    requires
        forall|j: int| 0 <= j < p.len() ==> p[j] != '.',
    ensures
        last_dot(p) is None,
    decreases p.len(),
{
    if p.len() > 0 {
        assert forall|j: int| 0 <= j < p.drop_last().len() implies p.drop_last()[j] != '.' by {
            assert(p.drop_last()[j] == p[j]);
        }
        lemma_last_dot_none(p.drop_last());
    }
}

proof fn lemma_first_slash_at(p: Seq<char>, k: int)
    requires
        0 <= k < p.len(),
        p[k] == '/',
        forall|j: int| 0 <= j < k ==> p[j] != '/',
    ensures
        first_slash(p) == Some(k),
    decreases p.len(),
{
    if p[0] != '/' {
        assert forall|j: int| 0 <= j < k - 1 implies p.drop_first()[j] != '/' by {
            assert(p.drop_first()[j] == p[j + 1]);
        }
        assert(p.drop_first()[k - 1] == p[k]);
        lemma_first_slash_at(p.drop_first(), k - 1);
    }
}

proof fn lemma_first_slash_none(p: Seq<char>)
    requires
        forall|j: int| 0 <= j < p.len() ==> p[j] != '/',
    ensures
        first_slash(p) is None,
    decreases p.len(),
{
    if p.len() > 0 {
        assert forall|j: int| 0 <= j < p.drop_first().len() implies p.drop_first()[j] != '/' by {
            assert(p.drop_first()[j] == p[j + 1]);
        }
        lemma_first_slash_none(p.drop_first());
    }
}

/// A copy of `s[from..to]` as a new string.
fn copy_range(s: &str, from: usize, to: usize) -> (r: String)
    requires
        from <= to <= s@.len(),
    ensures
        r@ == s@.subrange(from as int, to as int),
{
    let mut r = String::new();
    let mut i = from;
    while i < to
        invariant
            from <= i <= to,
            to <= s@.len(),
            r@ == s@.subrange(from as int, i as int),
        decreases to - i,
    {
        let c = s.get_char(i);
        push_char(&mut r, c);
        assert(r@ =~= s@.subrange(from as int, i + 1));
        i = i + 1;
    }
    r
}

/// The final component of `path` (`Path::file_name`).
pub fn file_name(path: &str) -> (r: Option<String>)
    ensures
        match r {
            Some(n) => path_file_name(path@) == Some(n@),
            None => path_file_name(path@) is None,
        },
{
    let mut end = path.unicode_len();
    assert(path@.subrange(0, end as int) =~= path@);
    loop
        invariant
            end <= path@.len(),
            path_file_name(path@) == path_file_name(path@.subrange(0, end as int)),
        decreases end,
    {
        let ghost q = path@.subrange(0, end as int);
        if end == 0 {
            return None;
        }
        if path.get_char(end - 1) == '/' {
            assert(q.drop_last() =~= path@.subrange(0, end - 1));
            end = end - 1;
            continue;
        }
        let mut start = end;
        while start > 0 && path.get_char(start - 1) != '/'
            invariant
                start <= end,
                end <= path@.len(),
                forall|j: int| start <= j < end ==> path@[j] != '/',
            decreases start,
        {
            start = start - 1;
        }
        proof {
            if start > 0 {
                lemma_last_slash_at(q, start - 1);
            } else {
                lemma_last_slash_none(q);
            }
            assert(q.subrange(start as int, q.len() as int) =~= path@.subrange(start as int, end as int));
        }
        if end - start == 1 && path.get_char(start) == '.' {
            proof {
                assert(path@.subrange(start as int, end as int) =~= seq!['.']);
                assert(q.subrange(0, start as int) =~= path@.subrange(0, start as int));
            }
            end = start;
            continue;
        }
        if end - start == 2 && path.get_char(start) == '.' && path.get_char(start + 1) == '.' {
            assert(path@.subrange(start as int, end as int) =~= seq!['.', '.']);
            return None;
        }
        proof {
            if path@.subrange(start as int, end as int) == seq!['.'] {
                assert(path@.subrange(start as int, end as int)[0] == path@[start as int]);
            }
            if path@.subrange(start as int, end as int) == seq!['.', '.'] {
                assert(path@.subrange(start as int, end as int)[0] == path@[start as int]);
                assert(path@.subrange(start as int, end as int)[1] == path@[start + 1]);
            }
        }
        return Some(copy_range(path, start, end));
    }
}

/// The stem of a file name.
pub fn stem_of_name(name: &str) -> (r: String)
    ensures
        r@ == name_stem(name@),
{
    let n = name.unicode_len();
    let mut k = n;
    while k > 0 && name.get_char(k - 1) != '.'
        invariant
            k <= n,
            n == name@.len(),
            forall|j: int| k <= j < n ==> name@[j] != '.',
        decreases k,
    {
        k = k - 1;
    }
    proof {
        if k > 0 {
            lemma_last_dot_at(name@, k - 1);
        } else {
            lemma_last_dot_none(name@);
        }
    }
    if k > 1 {
        let r = copy_range(name, 0, k - 1);
        assert(r@ =~= name@.take(k - 1));
        r
    } else {
        let r = copy_range(name, 0, n);
        assert(r@ =~= name@);
        r
    }
}

/// The stem of the final component of `path` (`Path::file_stem`).
pub fn file_stem(path: &str) -> (r: Option<String>)
    ensures
        match r {
            Some(s) => path_file_stem(path@) == Some(s@),
            None => path_file_stem(path@) is None,
        },
{
    match file_name(path) {
        Some(n) => Some(stem_of_name(n.as_str())),
        None => None,
    }
}

/// The named components of `path`.
fn segments(path: &str) -> (r: Vec<String>)
    ensures
        r@.len() == path_segments(path@).len(),
        forall|i: int| 0 <= i < r@.len() ==> #[trigger] r@[i]@ == path_segments(path@)[i],
{
    let n = path.unicode_len();
    let mut r: Vec<String> = Vec::new();
    let mut from: usize = 0;
    let ghost mut done: Seq<Seq<char>> = Seq::empty();
    assert(path@.skip(0) =~= path@);
    loop
        invariant
            from <= n,
            n == path@.len(),
            r@.len() == done.len(),
            forall|i: int| 0 <= i < r@.len() ==> #[trigger] r@[i]@ == done[i],
            path_segments(path@) == done + path_segments(path@.skip(from as int)),
        decreases n - from,
    {
        let ghost rest = path@.skip(from as int);
        let mut k = from;
        while k < n && path.get_char(k) != '/'
            invariant
                from <= k <= n,
                n == path@.len(),
                forall|j: int| from <= j < k ==> path@[j] != '/',
            decreases n - k,
        {
            k = k + 1;
        }
        let seg = copy_range(path, from, k);
        assert(seg@ =~= rest.take(k - from));
        let keep = !(k == from || (k == from + 1 && path.get_char(from) == '.'));
        proof {
            if k - from == 1 {
                assert(seg@[0] == path@[from as int]);
            }
        }
        if k == n {
            proof {
                assert forall|j: int| 0 <= j < rest.len() implies rest[j] != '/' by {
                    assert(rest[j] == path@[from + j]);
                }
                lemma_first_slash_none(rest);
                assert(rest =~= seg@);
                if keep {
                    assert(seg@ != seq!['.']);
                } else if seg@.len() == 1 {
                    assert(seg@ =~= seq!['.']);
                }
            }
            if keep {
                proof { done = done.push(seg@); }
                r.push(seg);
            }
            assert(path_segments(path@) =~= done);
            return r;
        }
        proof {
            assert forall|j: int| 0 <= j < k - from implies rest[j] != '/' by {
                assert(rest[j] == path@[from + j]);
            }
            assert(rest[k - from] == path@[k as int]);
            lemma_first_slash_at(rest, k - from);
            assert(rest.skip(k - from + 1) =~= path@.skip(k + 1));
            if keep {
                assert(seg@ != seq!['.']);
            } else if seg@.len() == 1 {
                assert(seg@ =~= seq!['.']);
            }
        }
        if keep {
            proof { done = done.push(seg@); }
            r.push(seg);
        } else {
            assert(done + path_segments(rest) =~= done + path_segments(path@.skip(k + 1)));
        }
        assert(path_segments(path@) =~= done + path_segments(path@.skip(k + 1)));
        from = k + 1;
    }
}

/// Whether two paths name the same components (`Path`'s `==`).
pub fn paths_equal(a: &str, b: &str) -> (r: bool)
    ensures
        r == path_equal(a@, b@),
{
    let la = a.unicode_len();
    let lb = b.unicode_len();
    let root_a = la > 0 && a.get_char(0) == '/';
    let root_b = lb > 0 && b.get_char(0) == '/';
    if root_a != root_b {
        return false;
    }
    let cur_a = la > 0 && a.get_char(0) == '.' && (la == 1 || a.get_char(1) == '/');
    let cur_b = lb > 0 && b.get_char(0) == '.' && (lb == 1 || b.get_char(1) == '/');
    if cur_a != cur_b {
        return false;
    }
    let sa = segments(a);
    let sb = segments(b);
    if sa.len() != sb.len() {
        return false;
    }
    let mut i: usize = 0;
    while i < sa.len()
        invariant
            i <= sa@.len(),
            sa@.len() == sb@.len(),
            sa@.len() == path_segments(a@).len(),
            sb@.len() == path_segments(b@).len(),
            forall|j: int| 0 <= j < sa@.len() ==> #[trigger] sa@[j]@ == path_segments(a@)[j],
            forall|j: int| 0 <= j < sb@.len() ==> #[trigger] sb@[j]@ == path_segments(b@)[j],
            forall|j: int| 0 <= j < i ==> path_segments(a@)[j] == path_segments(b@)[j],
        decreases sa@.len() - i,
    {
        if !str_eq(sa[i].as_str(), sb[i].as_str()) {
            assert(sa@[i as int]@ == path_segments(a@)[i as int]);
            assert(sb@[i as int]@ == path_segments(b@)[i as int]);
            return false;
        }
        assert(sa@[i as int]@ == path_segments(a@)[i as int]);
        assert(sb@[i as int]@ == path_segments(b@)[i as int]);
        i = i + 1;
    }
    assert(path_segments(a@) =~= path_segments(b@));
    true
}


// ------------------------------------------------------------------
// Order
// ------------------------------------------------------------------

/// `a` comes before `b` in code-point order; a proper prefix comes first.
pub open spec fn text_less(a: Seq<char>, b: Seq<char>) -> bool {
    ||| exists|k: int|
        #![trigger a[k], b[k]]
        0 <= k < a.len() && k < b.len() && a.take(k) == b.take(k) && a[k] < b[k]
    ||| a.len() < b.len() && a == b.take(a.len() as int)
}

/// A component of a path, ranked as `Path` orders them: the root (1), a
/// leading `.` (2), `..` (3), a name (4, then by its text).
pub type PathComponent = (u8, Seq<char>);

/// The component that a named piece of a path stands for.
pub open spec fn named_component(s: Seq<char>) -> PathComponent {
    if s == seq!['.', '.'] {
        (3u8, Seq::empty())
    } else {
        (4u8, s)
    }
}

/// The components of a path, as `Path::components` yields them.
pub open spec fn path_components(p: Seq<char>) -> Seq<PathComponent> {
    (if path_has_root(p) { seq![(1u8, Seq::<char>::empty())] } else { Seq::empty() })
        + (if path_leading_cur_dir(p) { seq![(2u8, Seq::<char>::empty())] } else { Seq::empty() })
        + path_segments(p).map_values(|s: Seq<char>| named_component(s))
}

/// One component comes before another.
pub open spec fn component_less(x: PathComponent, y: PathComponent) -> bool {
    x.0 < y.0 || (x.0 == y.0 && text_less(x.1, y.1))
}

/// Component sequences in lexicographic order.
pub open spec fn components_less(a: Seq<PathComponent>, b: Seq<PathComponent>) -> bool {
    ||| exists|k: int|
        #![trigger a[k], b[k]]
        0 <= k < a.len() && k < b.len() && a.take(k) == b.take(k) && component_less(a[k], b[k])
    ||| a.len() < b.len() && a == b.take(a.len() as int)
}

/// `a < b` as `Path`'s order has it: component by component.
pub open spec fn path_less(a: Seq<char>, b: Seq<char>) -> bool {
    components_less(path_components(a), path_components(b))
}

/// Whether `a` comes before `b` in code-point order.
pub fn text_precedes(a: &str, b: &str) -> (r: bool)
    ensures
        r == text_less(a@, b@),
{
    let n = a.unicode_len();
    let m = b.unicode_len();
    let mut i: usize = 0;
    while i < n && i < m
        invariant
            i <= n,
            i <= m,
            n == a@.len(),
            m == b@.len(),
            forall|j: int| 0 <= j < i ==> a@[j] == b@[j],
        decreases n - i,
    {
        let ca = a.get_char(i);
        let cb = b.get_char(i);
        if ca != cb {
            proof {
                assert(a@.take(i as int) =~= b@.take(i as int));
                if text_less(a@, b@) && !(ca < cb) {
                    if a@.len() < b@.len() && a@ == b@.take(a@.len() as int) {
                        assert(b@.take(a@.len() as int)[i as int] == b@[i as int]);
                    } else {
                        let k = choose|k: int|
                            #![trigger a@[k], b@[k]]
                            0 <= k < a@.len() && k < b@.len() && a@.take(k) == b@.take(k) && a@[k] < b@[k];
                        if k > i {
                            assert(a@.take(k)[i as int] == b@.take(k)[i as int]);
                        }
                    }
                }
            }
            return ca < cb;
        }
        i = i + 1;
    }
    proof {
        if n < m {
            assert(a@ =~= b@.take(n as int));
        }
        if text_less(a@, b@) && !(n < m) {
            let k = choose|k: int|
                #![trigger a@[k], b@[k]]
                0 <= k < a@.len() && k < b@.len() && a@.take(k) == b@.take(k) && a@[k] < b@[k];
            assert(a@[k] == b@[k]);
        }
    }
    n < m
}

/// Plain values of ranked components.
pub open spec fn components_view(v: Seq<(u8, String)>) -> Seq<PathComponent> {
    v.map_values(|c: (u8, String)| (c.0, c.1@))
}

/// The components of `path`, each as its rank and text.
fn components_of(path: &str) -> (r: Vec<(u8, String)>)
    ensures
        components_view(r@) == path_components(path@),
{
    let mut r: Vec<(u8, String)> = Vec::new();
    let n = path.unicode_len();
    let root = n > 0 && path.get_char(0) == '/';
    let cur = n > 0 && path.get_char(0) == '.' && (n == 1 || path.get_char(1) == '/');
    if root {
        r.push((1u8, String::new()));
    } else if cur {
        r.push((2u8, String::new()));
    }
    let ghost head = components_view(r@);
    proof {
        assert(root == path_has_root(path@));
        assert(cur == path_leading_cur_dir(path@));
        if root {
            assert(head =~= seq![(1u8, Seq::<char>::empty())]);
        } else if cur {
            assert(head =~= seq![(2u8, Seq::<char>::empty())]);
        } else {
            assert(head =~= Seq::<PathComponent>::empty());
        }
        assert(head =~= (if path_has_root(path@) { seq![(1u8, Seq::<char>::empty())] } else {
            Seq::empty()
        }) + (if path_leading_cur_dir(path@) { seq![(2u8, Seq::<char>::empty())] } else {
            Seq::empty()
        }));
    }
    let segs = segments(path);
    let k = segs.len();
    let mut i: usize = 0;
    while i < k
        invariant
            i <= k,
            k == segs@.len(),
            k == path_segments(path@).len(),
            forall|j: int| 0 <= j < k ==> #[trigger] segs@[j]@ == path_segments(path@)[j],
            components_view(r@) == head + path_segments(path@).take(
                i as int,
            ).map_values(|s: Seq<char>| named_component(s)),
        decreases k - i,
    {
        let s = &segs[i];
        let parent = str_eq(s.as_str(), "..");
        proof {
            reveal_strlit("..");
            assert(".."@ =~= seq!['.', '.']);
        }
        let c = if parent {
            (3u8, String::new())
        } else {
            (4u8, string_from(s.as_str()))
        };
        assert((c.0, c.1@) == named_component(path_segments(path@)[i as int]));
        let ghost before = r@;
        r.push(c);
        proof {
            assert(components_view(r@) =~= components_view(before).push((c.0, c.1@)));
            assert(path_segments(path@).take(i + 1) =~= path_segments(path@).take(i as int).push(
                path_segments(path@)[i as int],
            ));
            assert(components_view(r@) =~= head + path_segments(path@).take(
                i + 1,
            ).map_values(|s: Seq<char>| named_component(s)));
        }
        i = i + 1;
    }
    assert(path_segments(path@).take(k as int) =~= path_segments(path@));
    r
}

/// Whether `a` comes before `b` in `Path`'s order.
pub fn path_precedes(a: &str, b: &str) -> (r: bool)
    ensures
        r == path_less(a@, b@),
{
    let ca = components_of(a);
    let cb = components_of(b);
    let ghost va = components_view(ca@);
    let ghost vb = components_view(cb@);
    let n = ca.len();
    let m = cb.len();
    let mut i: usize = 0;
    while i < n && i < m
        invariant
            i <= n,
            i <= m,
            n == va.len(),
            m == vb.len(),
            va == components_view(ca@),
            vb == components_view(cb@),
            va == path_components(a@),
            vb == path_components(b@),
            forall|j: int| 0 <= j < i ==> va[j] == vb[j],
        decreases n - i,
    {
        let x = &ca[i];
        let y = &cb[i];
        assert(va[i as int] == (x.0, x.1@));
        assert(vb[i as int] == (y.0, y.1@));
        let same = x.0 == y.0 && str_eq(x.1.as_str(), y.1.as_str());
        if !same {
            let before = x.0 < y.0 || (x.0 == y.0 && text_precedes(x.1.as_str(), y.1.as_str()));
            proof {
                assert(va.take(i as int) =~= vb.take(i as int));
                assert(va[i as int] != vb[i as int]);
                assert(before == component_less(va[i as int], vb[i as int]));
                if before {
                    assert(components_less(va, vb));
                }
                if components_less(va, vb) && !before {
                    if va.len() < vb.len() && va == vb.take(va.len() as int) {
                        assert(vb.take(va.len() as int)[i as int] == vb[i as int]);
                    } else {
                        let k = choose|k: int|
                            #![trigger va[k], vb[k]]
                            0 <= k < va.len() && k < vb.len() && va.take(k) == vb.take(k)
                                && component_less(va[k], vb[k]);
                        if k > i {
                            assert(va.take(k)[i as int] == vb.take(k)[i as int]);
                        } else if k < i {
                            lemma_text_less_irreflexive(va[k].1);
                        }
                    }
                }
            }
            return before;
        }
        i = i + 1;
    }
    proof {
        if n < m {
            assert(va =~= vb.take(n as int));
        }
        if components_less(va, vb) && !(n < m) {
            let k = choose|k: int|
                #![trigger va[k], vb[k]]
                0 <= k < va.len() && k < vb.len() && va.take(k) == vb.take(k) && component_less(va[k], vb[k]);
            assert(va[k] == vb[k]);
            lemma_text_less_irreflexive(va[k].1);
        }
    }
    n < m
}

/// No text comes before itself.
pub proof fn lemma_text_less_irreflexive(s: Seq<char>)
    ensures
        !text_less(s, s),
{
}


/// Code-point order is transitive.
pub proof fn lemma_text_less_transitive(a: Seq<char>, b: Seq<char>, c: Seq<char>)
    requires
        text_less(a, b),
        text_less(b, c),
    ensures
        text_less(a, c),
{
    let ab_at = exists|k: int|
        #![trigger a[k], b[k]]
        0 <= k < a.len() && k < b.len() && a.take(k) == b.take(k) && a[k] < b[k];
    let bc_at = exists|k: int|
        #![trigger b[k], c[k]]
        0 <= k < b.len() && k < c.len() && b.take(k) == c.take(k) && b[k] < c[k];
    if ab_at {
        let k1 = choose|k: int|
            #![trigger a[k], b[k]]
            0 <= k < a.len() && k < b.len() && a.take(k) == b.take(k) && a[k] < b[k];
        if bc_at {
            let k2 = choose|k: int|
                #![trigger b[k], c[k]]
                0 <= k < b.len() && k < c.len() && b.take(k) == c.take(k) && b[k] < c[k];
            if k1 < k2 {
                assert(b.take(k2).take(k1) =~= b.take(k1));
                assert(c.take(k2).take(k1) =~= c.take(k1));
                assert(b.take(k2)[k1] == b[k1]);
                assert(c.take(k2)[k1] == c[k1]);
                assert(a.take(k1) =~= c.take(k1));
                assert(a[k1] < c[k1]);
            } else if k2 < k1 {
                assert(a.take(k1).take(k2) =~= a.take(k2));
                assert(b.take(k1).take(k2) =~= b.take(k2));
                assert(a.take(k1)[k2] == a[k2]);
                assert(b.take(k1)[k2] == b[k2]);
                assert(a.take(k2) =~= c.take(k2));
                assert(a[k2] < c[k2]);
            } else {
                assert(a.take(k1) =~= c.take(k1));
                assert(a[k1] < c[k1]);
            }
        } else {
            let n = b.len() as int;
            assert(c.take(n) == b);
            assert(c.take(n)[k1] == c[k1]);
            assert(c.take(n).take(k1) =~= c.take(k1));
            assert(b.take(k1) =~= c.take(k1));
            assert(a.take(k1) =~= c.take(k1));
            assert(a[k1] < c[k1]);
        }
    } else {
        let n = a.len() as int;
        assert(a == b.take(n));
        if bc_at {
            let k2 = choose|k: int|
                #![trigger b[k], c[k]]
                0 <= k < b.len() && k < c.len() && b.take(k) == c.take(k) && b[k] < c[k];
            if k2 < n {
                assert(b.take(n)[k2] == b[k2]);
                assert(b.take(n).take(k2) =~= b.take(k2));
                assert(a.take(k2) =~= c.take(k2));
                assert(a[k2] < c[k2]);
            } else {
                assert(b.take(k2).take(n) =~= b.take(n));
                assert(c.take(k2).take(n) =~= c.take(n));
                assert(a =~= c.take(n));
            }
        } else {
            let m = b.len() as int;
            assert(c.take(m) == b);
            assert(c.take(m).take(n) =~= c.take(n));
            assert(a =~= c.take(n));
        }
    }
}

/// Components are ordered transitively.
pub proof fn lemma_component_less_transitive(x: PathComponent, y: PathComponent, z: PathComponent)
    requires
        component_less(x, y),
        component_less(y, z),
    ensures
        component_less(x, z),
{
    if x.0 == y.0 && y.0 == z.0 {
        lemma_text_less_transitive(x.1, y.1, z.1);
    }
}

/// No component comes before itself.
pub proof fn lemma_component_less_irreflexive(x: PathComponent)
    ensures
        !component_less(x, x),
{
    lemma_text_less_irreflexive(x.1);
}

/// `Path`'s order is transitive.
pub proof fn lemma_path_less_transitive(p: Seq<char>, q: Seq<char>, r: Seq<char>)
    requires
        path_less(p, q),
        path_less(q, r),
    ensures
        path_less(p, r),
{
    let a = path_components(p);
    let b = path_components(q);
    let c = path_components(r);
    let ab_at = exists|k: int|
        #![trigger a[k], b[k]]
        0 <= k < a.len() && k < b.len() && a.take(k) == b.take(k) && component_less(a[k], b[k]);
    let bc_at = exists|k: int|
        #![trigger b[k], c[k]]
        0 <= k < b.len() && k < c.len() && b.take(k) == c.take(k) && component_less(b[k], c[k]);
    if ab_at {
        let k1 = choose|k: int|
            #![trigger a[k], b[k]]
            0 <= k < a.len() && k < b.len() && a.take(k) == b.take(k) && component_less(a[k], b[k]);
        if bc_at {
            let k2 = choose|k: int|
                #![trigger b[k], c[k]]
                0 <= k < b.len() && k < c.len() && b.take(k) == c.take(k) && component_less(b[k], c[k]);
            if k1 < k2 {
                assert(b.take(k2).take(k1) =~= b.take(k1));
                assert(c.take(k2).take(k1) =~= c.take(k1));
                assert(b.take(k2)[k1] == b[k1]);
                assert(c.take(k2)[k1] == c[k1]);
                assert(a.take(k1) =~= c.take(k1));
                assert(component_less(a[k1], c[k1]));
            } else if k2 < k1 {
                assert(a.take(k1).take(k2) =~= a.take(k2));
                assert(b.take(k1).take(k2) =~= b.take(k2));
                assert(a.take(k1)[k2] == a[k2]);
                assert(b.take(k1)[k2] == b[k2]);
                assert(a.take(k2) =~= c.take(k2));
                assert(component_less(a[k2], c[k2]));
            } else {
                lemma_component_less_transitive(a[k1], b[k1], c[k1]);
                assert(a.take(k1) =~= c.take(k1));
            }
        } else {
            let n = b.len() as int;
            assert(c.take(n) == b);
            assert(c.take(n)[k1] == c[k1]);
            assert(c.take(n).take(k1) =~= c.take(k1));
            assert(a.take(k1) =~= c.take(k1));
            assert(component_less(a[k1], c[k1]));
        }
    } else {
        let n = a.len() as int;
        assert(a == b.take(n));
        if bc_at {
            let k2 = choose|k: int|
                #![trigger b[k], c[k]]
                0 <= k < b.len() && k < c.len() && b.take(k) == c.take(k) && component_less(b[k], c[k]);
            if k2 < n {
                assert(b.take(n)[k2] == b[k2]);
                assert(b.take(n).take(k2) =~= b.take(k2));
                assert(a.take(k2) =~= c.take(k2));
                assert(component_less(a[k2], c[k2]));
            } else {
                assert(b.take(k2).take(n) =~= b.take(n));
                assert(c.take(k2).take(n) =~= c.take(n));
                assert(a =~= c.take(n));
            }
        } else {
            let m = b.len() as int;
            assert(c.take(m) == b);
            assert(c.take(m).take(n) =~= c.take(n));
            assert(a =~= c.take(n));
        }
    }
}

/// No path comes before itself.
pub proof fn lemma_path_less_irreflexive(p: Seq<char>)
    ensures
        !path_less(p, p),
{
    let a = path_components(p);
    if exists|k: int|
        #![trigger a[k], a[k]]
        0 <= k < a.len() && k < a.len() && a.take(k) == a.take(k) && component_less(a[k], a[k]) {
        let k = choose|k: int|
            #![trigger a[k], a[k]]
            0 <= k < a.len() && k < a.len() && a.take(k) == a.take(k) && component_less(a[k], a[k]);
        lemma_component_less_irreflexive(a[k]);
    }
}

} // verus!
