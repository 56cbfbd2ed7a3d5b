//! Building the shell commands of the crash reporter in fixed-size,
//! NUL-terminated byte buffers.
//!
//! A buffer is a `Vec<u8>` whose length is the buffer size; a C string
//! argument is a byte slice whose text ends at its first NUL byte (or at
//! its end).  Appending never writes past the buffer: text that does not
//! fit is cut, the last byte becomes the terminating NUL, and the call
//! reports `-1`.

use vstd::prelude::*;

verus! {

/// The text of a C string: the bytes before the first NUL.
pub open spec fn c_string(s: Seq<u8>) -> Seq<u8>
    decreases s.len(),
{
    if s.len() == 0 || s[0] == 0 {
        Seq::empty()
    } else {
        seq![s[0]] + c_string(s.drop_first())
    }
}

/// Whether `text` and its terminating NUL fit at `pos` in a buffer of
/// `size` bytes.
pub open spec fn fits(size: int, pos: int, text: Seq<u8>) -> bool {
    pos + text.len() < size
}

/// The buffer `d` after appending `text` at `pos`: the text and a NUL
/// when they fit, else as much of the text as fits and a NUL in the last
/// byte.
pub open spec fn appended(d: Seq<u8>, pos: int, text: Seq<u8>) -> Seq<u8> {
    if fits(d.len() as int, pos, text) {
        d.take(pos) + text + seq![0u8] + d.skip(pos + text.len() + 1)
    } else {
        d.take(pos) + text.take(d.len() - 1 - pos) + seq![0u8]
    }
}

/// The write position after appending `text` at `pos`.
pub open spec fn appended_pos(size: int, pos: int, text: Seq<u8>) -> int {
    if fits(size, pos, text) {
        pos + text.len()
    } else {
        size - 1
    }
}

/// The status of an append: `0` when the text fitted, else `-1`.
pub open spec fn append_status(size: int, pos: int, text: Seq<u8>) -> i32 {
    if fits(size, pos, text) {
        0i32
    } else {
        -1i32
    }
}

/// The bytes that stand for one byte inside single quotes.
pub open spec fn quote_byte(c: u8) -> Seq<u8> {
    if c == 39 {
        seq![39u8, 34u8, 39u8, 34u8, 39u8]
    } else {
        seq![c]
    }
}

/// `t` with each single quote closed, quoted and reopened.
pub open spec fn quote_body(t: Seq<u8>) -> Seq<u8>
    decreases t.len(),
{
    if t.len() == 0 {
        Seq::empty()
    } else {
        quote_body(t.drop_last()) + quote_byte(t.last())
    }
}

/// `t` quoted for a POSIX shell: between single quotes.
pub open spec fn shell_quoted(t: Seq<u8>) -> Seq<u8> {
    seq![39u8] + quote_body(t) + seq![39u8]
}

/// Law: appending two pieces one after the other leaves the buffer as
/// appending them together would, and fails exactly when that would.
pub proof fn law_append_in_pieces(d: Seq<u8>, pos: int, a: Seq<u8>, b: Seq<u8>)
    requires
        0 <= pos < d.len(),
    ensures
        fits(d.len() as int, pos, a) ==> appended(appended(d, pos, a), pos + a.len(), b) == appended(
            d,
            pos,
            a + b,
        ) && appended_pos(d.len() as int, pos + a.len(), b) == appended_pos(d.len() as int, pos, a + b)
            && append_status(d.len() as int, pos + a.len(), b) == append_status(d.len() as int, pos, a + b),
        !fits(d.len() as int, pos, a) ==> appended(d, pos, a) == appended(d, pos, a + b) && appended_pos(
            d.len() as int,
            pos,
            a,
        ) == appended_pos(d.len() as int, pos, a + b) && !fits(d.len() as int, pos, a + b),
{
    let n = d.len() as int;
    if fits(n, pos, a) {
        let d1 = appended(d, pos, a);
        let p1 = pos + a.len();
        assert(d1.len() == n);
        if fits(n, p1, b) {
            assert(appended(d1, p1, b) =~= appended(d, pos, a + b));
        } else {
            assert(appended(d1, p1, b) =~= appended(d, pos, a + b));
        }
    } else {
        assert((a + b).take(n - 1 - pos) =~= a.take(n - 1 - pos));
        assert(appended(d, pos, a) =~= appended(d, pos, a + b));
    }
}

proof fn lemma_c_string_prefix(s: Seq<u8>, k: int)
    requires
        0 <= k <= s.len(),
        forall|j: int| 0 <= j < k ==> s[j] != 0,
        k == s.len() || s[k] == 0,
    ensures
        c_string(s) == s.take(k),
    decreases s.len(),
{
    if k > 0 {
        assert forall|j: int| 0 <= j < k - 1 implies s.drop_first()[j] != 0 by {
            assert(s.drop_first()[j] == s[j + 1]);
        }
        if k < s.len() {
            assert(s.drop_first()[k - 1] == s[k]);
        }
        lemma_c_string_prefix(s.drop_first(), k - 1);
        assert(s.take(k) =~= seq![s[0]] + s.drop_first().take(k - 1));
    } else {
        assert(s.take(0) =~= Seq::<u8>::empty());
    }
}

/// Length of the C string held by `s`.
fn c_string_len(s: &[u8]) -> (k: usize)
    ensures
        k <= s@.len(),
        c_string(s@) == s@.take(k as int),
{
    let mut k: usize = 0;
    while k < s.len() && s[k] != 0
        invariant
            k <= s@.len(),
            forall|j: int| 0 <= j < k ==> s@[j] != 0,
        decreases s@.len() - k,
    {
        k = k + 1;
    }
    proof { lemma_c_string_prefix(s@, k as int); }
    k
}

/// Appends the first `count` bytes of `text` at `*pos`.
fn append_prefix(dst: &mut Vec<u8>, pos: &mut usize, text: &[u8], count: usize) -> (r: i32)
    requires
        *old(pos) < old(dst)@.len(),
        count <= text@.len(),
    ensures
        final(dst)@ == appended(old(dst)@, *old(pos) as int, text@.take(count as int)),
        *final(pos) == appended_pos(old(dst)@.len() as int, *old(pos) as int, text@.take(count as int)),
        r == append_status(old(dst)@.len() as int, *old(pos) as int, text@.take(count as int)),
{
    let ghost d0 = dst@;
    let ghost p0 = *pos as int;
    let ghost t = text@.take(count as int);
    let size = dst.len();
    let mut i: usize = 0;
    while i < count
        invariant
            i <= count,
            count <= text@.len(),
            t == text@.take(count as int),
            size == dst@.len(),
            size == d0.len(),
            d0 == old(dst)@,
            p0 == *old(pos),
            *pos == p0 + i,
            *pos < size,
            dst@ == d0.take(p0) + t.take(i as int) + d0.skip(p0 + i),
        decreases count - i,
    {
        if *pos + 1 >= size {
            assert(!fits(size as int, p0, t));
            assert(*pos == size - 1);
            dst.set(size - 1, 0);
            assert(t.take(i as int) =~= t.take(size - 1 - p0));
            assert(dst@ =~= appended(d0, p0, t));
            return -1;
        }
        dst.set(*pos, text[i]);
        *pos = *pos + 1;
        assert(dst@ =~= d0.take(p0) + t.take(i + 1) + d0.skip(p0 + i + 1));
        i = i + 1;
    }
    dst.set(*pos, 0);
    assert(t.take(count as int) =~= t);
    assert(dst@ =~= appended(d0, p0, t));
    0
}

/// Appends the bytes of `text` at `*pos`.
fn append_bytes(dst: &mut Vec<u8>, pos: &mut usize, text: &[u8]) -> (r: i32)
    requires
        *old(pos) < old(dst)@.len(),
    ensures
        final(dst)@ == appended(old(dst)@, *old(pos) as int, text@),
        *final(pos) == appended_pos(old(dst)@.len() as int, *old(pos) as int, text@),
        r == append_status(old(dst)@.len() as int, *old(pos) as int, text@),
{
    assert(text@.take(text@.len() as int) =~= text@);
    append_prefix(dst, pos, text, text.len())
}

/// Appends the C string `src` at `*pos`.
pub fn stacktrace_append_text_4(dst: &mut Vec<u8>, pos: &mut usize, src: &[u8]) -> (r: i32)
    requires
        *old(pos) < old(dst)@.len() || old(dst)@.len() == 0 || c_string(src@).len() > 0,
    ensures
        *old(pos) < old(dst)@.len() ==> final(dst)@ == appended(old(dst)@, *old(pos) as int, c_string(src@))
            && *final(pos) == appended_pos(old(dst)@.len() as int, *old(pos) as int, c_string(src@))
            && r == append_status(old(dst)@.len() as int, *old(pos) as int, c_string(src@)),
        *old(pos) >= old(dst)@.len() ==> r == -1 && *final(pos) == *old(pos) && final(dst)@
            == outside_append(old(dst)@),
{
    if dst.len() == 0 {
        return -1;
    }
    let k = c_string_len(src);
    if *pos >= dst.len() {
        let last = dst.len() - 1;
        dst.set(last, 0);
        return -1;
    }
    append_prefix(dst, pos, src, k)
}

/// The buffer after an append that starts at or beyond its end: its last
/// byte becomes a NUL (an empty buffer is left as it is).
pub open spec fn outside_append(d: Seq<u8>) -> Seq<u8> {
    if d.len() == 0 {
        d
    } else {
        d.update(d.len() - 1, 0u8)
    }
}

/// Appends the C string `src` at `*pos`, quoted for a POSIX shell.
pub fn stacktrace_append_shell_quoted_5(dst: &mut Vec<u8>, pos: &mut usize, src: &[u8]) -> (r: i32)
    ensures
        *old(pos) < old(dst)@.len() ==> final(dst)@ == appended(
            old(dst)@,
            *old(pos) as int,
            shell_quoted(c_string(src@)),
        ) && *final(pos) == appended_pos(old(dst)@.len() as int, *old(pos) as int, shell_quoted(c_string(src@)))
            && r == append_status(old(dst)@.len() as int, *old(pos) as int, shell_quoted(c_string(src@))),
        *old(pos) >= old(dst)@.len() ==> r == -1 && *final(pos) == *old(pos) && final(dst)@
            == outside_append(old(dst)@),
{
    if *pos >= dst.len() {
        if dst.len() > 0 {
            let last = dst.len() - 1;
            dst.set(last, 0);
        }
        return -1;
    }
    let ghost d0 = dst@;
    let ghost p0 = *pos as int;
    let ghost size = dst@.len() as int;
    let k = c_string_len(src);
    let ghost t = src@.take(k as int);
    let quote: [u8; 1] = [39u8];
    let escape: [u8; 5] = [39u8, 34u8, 39u8, 34u8, 39u8];
    assert(quote@ =~= seq![39u8]);
    assert(escape@ =~= seq![39u8, 34u8, 39u8, 34u8, 39u8]);
    let ghost whole = shell_quoted(t);
    if append_bytes(dst, pos, &quote) != 0 {
        proof { law_append_in_pieces(d0, p0, seq![39u8], quote_body(t) + seq![39u8]); }
        assert(whole =~= seq![39u8] + (quote_body(t) + seq![39u8]));
        return -1;
    }
    let mut i: usize = 0;
    while i < k
        invariant
            i <= k,
            k <= src@.len(),
            t == src@.take(k as int),
            whole == shell_quoted(t),
            c_string(src@) == t,
            size == d0.len(),
            d0 == old(dst)@,
            p0 == *old(pos),
            0 <= p0 < size,
            quote@ == seq![39u8],
            escape@ == seq![39u8, 34u8, 39u8, 34u8, 39u8],
            fits(size, p0, seq![39u8] + quote_body(t.take(i as int))),
            dst@ == appended(d0, p0, seq![39u8] + quote_body(t.take(i as int))),
            *pos == p0 + 1 + quote_body(t.take(i as int)).len(),
            *pos < size,
        decreases k - i,
    {
        let ghost done = seq![39u8] + quote_body(t.take(i as int));
        let ghost piece = quote_byte(src@[i as int]);
        let ghost after = quote_body(t.skip(i + 1)) + seq![39u8];
        proof {
            assert(t.take(i + 1).drop_last() =~= t.take(i as int));
            assert(t.take(i + 1).last() == src@[i as int]);
            assert(quote_body(t.take(i + 1)) == quote_body(t.take(i as int)) + piece);
            law_append_in_pieces(d0, p0, done, piece);
        }
        let r = if src[i] == 39 {
            append_bytes(dst, pos, &escape)
        } else {
            let one: [u8; 1] = [src[i]];
            assert(one@ =~= seq![src@[i as int]]);
            append_bytes(dst, pos, &one)
        };
        assert(done + piece =~= seq![39u8] + quote_body(t.take(i + 1)));
        if r != 0 {
            proof {
                lemma_quote_body_split(t, i as int + 1);
                law_append_in_pieces(d0, p0, done + piece, after);
                assert(whole =~= (done + piece) + after);
            }
            return -1;
        }
        i = i + 1;
    }
    assert(t.take(k as int) =~= t);
    let r = append_bytes(dst, pos, &quote);
    proof {
        law_append_in_pieces(d0, p0, seq![39u8] + quote_body(t), seq![39u8]);
        assert(whole =~= (seq![39u8] + quote_body(t)) + seq![39u8]);
    }
    r
}

/// Splitting the input splits the quoted body.
proof fn lemma_quote_body_split(t: Seq<u8>, i: int)
    requires
        0 <= i <= t.len(),
    ensures
        quote_body(t) == quote_body(t.take(i)) + quote_body(t.skip(i)),
    decreases t.len() - i,
{
    if i < t.len() {
        lemma_quote_body_split(t, i + 1);
        assert(t.take(i + 1).drop_last() =~= t.take(i));
        assert(t.take(i + 1).last() == t[i]);
        lemma_quote_body_prepend(t.skip(i));
        assert(t.skip(i).drop_first() =~= t.skip(i + 1));
        assert(quote_body(t.take(i + 1)) == quote_body(t.take(i)) + quote_byte(t[i]));
        assert(quote_body(t.skip(i)) == quote_byte(t[i]) + quote_body(t.skip(i + 1)));
        assert(quote_body(t) =~= quote_body(t.take(i)) + quote_body(t.skip(i)));
    } else {
        assert(t.take(i) =~= t);
        assert(t.skip(i) =~= Seq::<u8>::empty());
        assert(quote_body(t) + Seq::<u8>::empty() =~= quote_body(t));
    }
}

/// The quoted body of a text is that of its first byte and of the rest.
proof fn lemma_quote_body_prepend(t: Seq<u8>)
    requires
        t.len() > 0,
    ensures
        quote_body(t) == quote_byte(t[0]) + quote_body(t.drop_first()),
    decreases t.len(),
{
    if t.len() == 1 {
        assert(t.drop_last() =~= Seq::<u8>::empty());
        assert(t.drop_first() =~= Seq::<u8>::empty());
        assert(quote_body(t) =~= quote_byte(t[0]) + quote_body(t.drop_first()));
    } else {
        lemma_quote_body_prepend(t.drop_last());
        assert(t.drop_last().drop_first() =~= t.drop_first().drop_last());
        assert(t.drop_first().last() == t.last());
        assert(quote_body(t) =~= quote_byte(t[0]) + quote_body(t.drop_first()));
    }
}

/// Writes the C string `src`, quoted for a POSIX shell, at the start of
/// `dst`.
pub fn stacktrace_shell_quote_7(dst: &mut Vec<u8>, src: &[u8]) -> (r: i32)
    ensures
        old(dst)@.len() == 0 ==> r == -1 && final(dst)@ == old(dst)@,
        old(dst)@.len() > 0 ==> final(dst)@ == appended(old(dst)@.update(0, 0u8), 0, shell_quoted(c_string(src@)))
            && r == append_status(old(dst)@.len() as int, 0, shell_quoted(c_string(src@))),
{
    if dst.len() == 0 {
        return -1;
    }
    dst.set(0, 0);
    let mut pos: usize = 0;
    stacktrace_append_shell_quoted_5(dst, &mut pos, src)
}

/// Copies the C string `src` into `dst`, cut to fit, NUL-terminated.
pub fn stacktrace_copy_symbol_name_10(dst: &mut Vec<u8>, src: &[u8]) -> (r: i32)
    ensures
        old(dst)@.len() == 0 ==> r == -1 && final(dst)@ == old(dst)@,
        old(dst)@.len() > 0 ==> r == 0 && final(dst)@ == {
            let t = c_string(src@);
            let k = if t.len() < old(dst)@.len() { t.len() as int } else { old(dst)@.len() - 1 };
            t.take(k) + seq![0u8] + old(dst)@.skip(k + 1)
        },
{
    let size = dst.len();
    if size == 0 {
        return -1;
    }
    let ghost d0 = dst@;
    let k = c_string_len(src);
    let mut i: usize = 0;
    while i < k && i + 1 < size
        invariant
            i <= k,
            k <= src@.len(),
            size == dst@.len(),
            size == d0.len(),
            i < size,
            dst@ == src@.take(i as int) + d0.skip(i as int),
        decreases k - i,
    {
        dst.set(i, src[i]);
        assert(dst@ =~= src@.take(i + 1) + d0.skip(i + 1));
        i = i + 1;
    }
    dst.set(i, 0);
    assert(src@.take(k as int).take(i as int) =~= src@.take(i as int));
    assert(dst@ =~= src@.take(k as int).take(i as int) + seq![0u8] + d0.skip(i + 1));
    0
}

/// The command that lists the symbols of `progname`.
pub open spec fn nm_command(progname: Seq<u8>) -> Seq<u8> {
    "nm -B "@.map_values(|c: char| c as u8) + shell_quoted(progname)
}

/// Builds the `nm` command that lists the symbols of the program.  Both
/// kinds of `nm` take the same options.
pub fn stacktrace_build_nm_command_12(dst: &mut Vec<u8>, use_gnu_nm: i32, progname: &[u8]) -> (r: i32)
    ensures
        old(dst)@.len() == 0 ==> r == -1 && final(dst)@ == old(dst)@,
        old(dst)@.len() > 0 ==> final(dst)@ == appended(old(dst)@.update(0, 0u8), 0, nm_command(c_string(progname@)))
            && r == append_status(old(dst)@.len() as int, 0, nm_command(c_string(progname@))),
{
    if dst.len() == 0 {
        return -1;
    }
    let prefix: [u8; 6] = [110u8, 109u8, 32u8, 45u8, 66u8, 32u8];
    proof {
        reveal_strlit("nm -B ");
        assert(prefix@ =~= "nm -B "@.map_values(|c: char| c as u8));
    }
    dst.set(0, 0);
    let ghost d0 = dst@;
    let mut pos: usize = 0;
    if append_bytes(dst, &mut pos, &prefix) != 0 {
        proof { law_append_in_pieces(d0, 0, prefix@, shell_quoted(c_string(progname@))); }
        return -1;
    }
    let r = stacktrace_append_shell_quoted_5(dst, &mut pos, progname);
    proof { law_append_in_pieces(d0, 0, prefix@, shell_quoted(c_string(progname@))); }
    r
}

/// ASCII bytes of a text literal.
pub open spec fn ascii(s: Seq<char>) -> Seq<u8> {
    s.map_values(|c: char| c as u8)
}

/// Decimal digits of a natural number, as ASCII bytes.
pub open spec fn decimal_digits(n: nat) -> Seq<u8>
    decreases n,
{
    if n < 10 {
        seq![(48 + n) as u8]
    } else {
        decimal_digits(n / 10).push((48 + n % 10) as u8)
    }
}

/// `%d`: decimal, with a leading `-` when negative.
pub open spec fn decimal_text(i: int) -> Seq<u8> {
    if i < 0 {
        seq![45u8] + decimal_digits((-i) as nat)
    } else {
        decimal_digits(i as nat)
    }
}

/// A lowercase hexadecimal digit.
pub open spec fn hex_digit(d: int) -> u8 {
    if d < 10 {
        (48 + d) as u8
    } else {
        (87 + d) as u8
    }
}

/// `%lx`: lowercase hexadecimal digits of a natural number.
pub open spec fn hex_digits(n: nat) -> Seq<u8>
    decreases n,
{
    if n < 16 {
        seq![hex_digit(n as int)]
    } else {
        hex_digits(n / 16).push(hex_digit((n % 16) as int))
    }
}

/// `%0<width>lx`: hexadecimal digits padded with zeros to `width`.
pub open spec fn hex_padded(n: nat, width: nat) -> Seq<u8> {
    let h = hex_digits(n);
    if h.len() >= width {
        h
    } else {
        Seq::new((width - h.len()) as nat, |i: int| 48u8) + h
    }
}

/// Appends `s` to `out`.
fn push_all(out: &mut Vec<u8>, s: &[u8])
    ensures
        final(out)@ == old(out)@ + s@,
{
    let mut i: usize = 0;
    while i < s.len()
        invariant
            i <= s@.len(),
            out@ == old(out)@ + s@.take(i as int),
        decreases s@.len() - i,
    {
        out.push(s[i]);
        assert(out@ =~= old(out)@ + s@.take(i + 1));
        i = i + 1;
    }
    assert(s@.take(s@.len() as int) =~= s@);
}

/// Appends the decimal digits of `v` to `out`.
fn push_decimal_digits(out: &mut Vec<u8>, v: u64)
    ensures
        final(out)@ == old(out)@ + decimal_digits(v as nat),
    decreases v,
{
    if v >= 10 {
        push_decimal_digits(out, v / 10);
    }
    out.push((48 + v % 10) as u8);
    assert(out@ =~= old(out)@ + decimal_digits(v as nat));
}

/// Appends `v` as `%d` formats it to `out`.
fn push_decimal_text(out: &mut Vec<u8>, v: i32)
    ensures
        final(out)@ == old(out)@ + decimal_text(v as int),
{
    if v < 0 {
        out.push(45u8);
        let mag: u64 = (-(v as i64)) as u64;
        push_decimal_digits(out, mag);
        assert(out@ =~= old(out)@ + decimal_text(v as int));
    } else {
        push_decimal_digits(out, v as u64);
    }
}

fn hex_digit_exec(d: u64) -> (r: u8)
    requires
        d < 16,
    ensures
        r == hex_digit(d as int),
{
    if d < 10 {
        (48 + d) as u8
    } else {
        (87 + d) as u8
    }
}

/// The hexadecimal digits of `v`.
fn hex_digits_exec(v: u64) -> (r: Vec<u8>)
    ensures
        r@ == hex_digits(v as nat),
    decreases v,
{
    let mut out = if v >= 16 {
        hex_digits_exec(v / 16)
    } else {
        Vec::new()
    };
    out.push(hex_digit_exec(v % 16));
    assert(out@ =~= hex_digits(v as nat));
    out
}

/// Appends `v` as `%0<width>lx` formats it to `out`.
fn push_hex_padded(out: &mut Vec<u8>, v: u64, width: usize)
    ensures
        final(out)@ == old(out)@ + hex_padded(v as nat, width as nat),
{
    let h = hex_digits_exec(v);
    let ghost before = out@;
    if h.len() < width {
        let pad = width - h.len();
        let mut i: usize = 0;
        while i < pad
            invariant
                i <= pad,
                out@ == before + Seq::new(i as nat, |j: int| 48u8),
            decreases pad - i,
        {
            out.push(48u8);
            assert(out@ =~= before + Seq::new((i + 1) as nat, |j: int| 48u8));
            i = i + 1;
        }
    }
    push_all(out, h.as_slice());
    assert(out@ =~= before + hex_padded(v as nat, width as nat));
}

/// The command that runs the debugger on process `pid` of `progname` with
/// the commands in `command_file`, its output going to `fweelin-stackdump`.
pub open spec fn debugger_command(progname: Seq<u8>, command_file: Seq<u8>, pid: i32) -> Seq<u8> {
    ascii("gdb -q "@) + shell_quoted(progname) + ascii(" "@) + decimal_text(pid as int) + ascii(
        " 2>/dev/null <"@,
    ) + shell_quoted(command_file) + ascii(" >fweelin-stackdump"@)
}

/// Appends the bytes of a text literal.
fn push_literal(out: &mut Vec<u8>, s: &str)
    requires
        forall|k: int| 0 <= k < s@.len() ==> (s@[k] as u32) < 128,
    ensures
        final(out)@ == old(out)@ + ascii(s@),
{
    let n = s.unicode_len();
    let mut i: usize = 0;
    while i < n
        invariant
            i <= n,
            n == s@.len(),
            forall|k: int| 0 <= k < s@.len() ==> (s@[k] as u32) < 128,
            out@ == old(out)@ + ascii(s@.take(i as int)),
        decreases n - i,
    {
        let c = s.get_char(i);
        out.push(c as u8);
        assert(ascii(s@.take(i + 1)) =~= ascii(s@.take(i as int)).push(c as u8));
        i = i + 1;
    }
    assert(s@.take(n as int) =~= s@);
}

/// Appends the C string `src`, quoted for a POSIX shell.
fn push_shell_quoted(out: &mut Vec<u8>, src: &[u8])
    ensures
        final(out)@ == old(out)@ + shell_quoted(c_string(src@)),
{
    let k = c_string_len(src);
    let ghost t = src@.take(k as int);
    let ghost start = out@;
    out.push(39u8);
    let mut i: usize = 0;
    while i < k
        invariant
            i <= k,
            k <= src@.len(),
            t == src@.take(k as int),
            out@ == start + seq![39u8] + quote_body(t.take(i as int)),
        decreases k - i,
    {
        proof {
            assert(t.take(i + 1).drop_last() =~= t.take(i as int));
            assert(t.take(i + 1).last() == src@[i as int]);
        }
        if src[i] == 39 {
            out.push(39u8);
            out.push(34u8);
            out.push(39u8);
            out.push(34u8);
            out.push(39u8);
        } else {
            out.push(src[i]);
        }
        assert(out@ =~= start + seq![39u8] + quote_body(t.take(i + 1)));
        i = i + 1;
    }
    out.push(39u8);
    assert(t.take(k as int) =~= t);
    assert(out@ =~= start + shell_quoted(c_string(src@)));
}

/// Builds the debugger command for process `pid` of `progname`.
pub fn stacktrace_build_debugger_command_13(dst: &mut Vec<u8>, progname: &[u8], gdb_command_file: &[u8], pid: i32) -> (r: i32)
    ensures
        old(dst)@.len() == 0 ==> r == -1 && final(dst)@ == old(dst)@,
        old(dst)@.len() > 0 ==> {
            let text = debugger_command(c_string(progname@), c_string(gdb_command_file@), pid);
            final(dst)@ == appended(old(dst)@.update(0, 0u8), 0, text) && r == append_status(
                old(dst)@.len() as int,
                0,
                text,
            )
        },
{
    if dst.len() == 0 {
        return -1;
    }
    dst.set(0, 0);
    let mut text: Vec<u8> = Vec::new();
    proof { reveal_strlit("gdb -q "); reveal_strlit(" "); reveal_strlit(" 2>/dev/null <"); reveal_strlit(" >fweelin-stackdump"); }
    push_literal(&mut text, "gdb -q ");
    push_shell_quoted(&mut text, progname);
    push_literal(&mut text, " ");
    push_decimal_text(&mut text, pid);
    push_literal(&mut text, " 2>/dev/null <");
    push_shell_quoted(&mut text, gdb_command_file);
    push_literal(&mut text, " >fweelin-stackdump");
    assert(text@ =~= debugger_command(c_string(progname@), c_string(gdb_command_file@), pid));
    let mut pos: usize = 0;
    append_bytes(dst, &mut pos, text.as_slice())
}

/// One line of a stack dump: frame number, address, and, when the symbol
/// is known, its name, offset and kind.
pub open spec fn symbol_entry(index: i32, real_address: u64, symbol_name: Seq<u8>, offset: u64, kind: u8) -> Seq<u8> {
    let head = ascii("["@) + decimal_text(index as int) + ascii("] 0x"@) + hex_padded(real_address as nat, 8);
    if symbol_name.len() == 0 {
        head + ascii(" ???\n"@)
    } else {
        head + ascii(" <"@) + symbol_name + ascii(" + 0x"@) + hex_digits(offset as nat) + ascii("> "@) + seq![kind]
            + ascii("\n"@)
    }
}

/// Writes one line of a stack dump at the start of `dst`.
pub fn stacktrace_format_symbol_entry_11(
    dst: &mut Vec<u8>,
    index: i32,
    real_address: u64,
    symbol_name: &[u8],
    offset: u64,
    kind: u8,
) -> (r: i32)
    ensures
        old(dst)@.len() == 0 ==> r == -1 && final(dst)@ == old(dst)@,
        old(dst)@.len() > 0 ==> {
            let text = symbol_entry(index, real_address, c_string(symbol_name@), offset, kind);
            final(dst)@ == appended(old(dst)@, 0, text) && r == append_status(old(dst)@.len() as int, 0, text)
        },
{
    if dst.len() == 0 {
        return -1;
    }
    let mut text: Vec<u8> = Vec::new();
    proof {
        reveal_strlit("[");
        reveal_strlit("] 0x");
        reveal_strlit(" ???\n");
        reveal_strlit(" <");
        reveal_strlit(" + 0x");
        reveal_strlit("> ");
        reveal_strlit("\n");
    }
    push_literal(&mut text, "[");
    push_decimal_text(&mut text, index);
    push_literal(&mut text, "] 0x");
    push_hex_padded(&mut text, real_address, 8);
    let k = c_string_len(symbol_name);
    if k == 0 {
        push_literal(&mut text, " ???\n");
    } else {
        push_literal(&mut text, " <");
        let mut i: usize = 0;
        let ghost before = text@;
        while i < k
            invariant
                i <= k,
                k <= symbol_name@.len(),
                text@ == before + symbol_name@.take(i as int),
            decreases k - i,
        {
            text.push(symbol_name[i]);
            assert(text@ =~= before + symbol_name@.take(i + 1));
            i = i + 1;
        }
        push_literal(&mut text, " + 0x");
        let h = hex_digits_exec(offset);
        push_all(&mut text, h.as_slice());
        push_literal(&mut text, "> ");
        text.push(kind);
        push_literal(&mut text, "\n");
    }
    assert(text@ =~= symbol_entry(index, real_address, c_string(symbol_name@), offset, kind));
    let mut pos: usize = 0;
    append_bytes(dst, &mut pos, text.as_slice())
}

// ------------------------------------------------------------------
// Reading `nm -B` output
// ------------------------------------------------------------------

/// White space as C's `isspace` sees it.
pub open spec fn is_c_space(c: u8) -> bool {
    c == 32 || (9 <= c && c <= 13)
}

/// A hexadecimal digit, either case.
pub open spec fn is_hex_digit(c: u8) -> bool {
    (48 <= c && c <= 57) || (97 <= c && c <= 102) || (65 <= c && c <= 70)
}

/// The value of a hexadecimal digit.
pub open spec fn hex_digit_value(c: u8) -> nat {
    if 48 <= c && c <= 57 {
        (c - 48) as nat
    } else if 97 <= c && c <= 102 {
        (c - 87) as nat
    } else {
        (c - 55) as nat
    }
}

/// The first index at or after `i` that is not white space.
pub open spec fn skip_space(s: Seq<u8>, i: int) -> int
    decreases s.len() - i,
{
    if 0 <= i < s.len() && is_c_space(s[i]) {
        skip_space(s, i + 1)
    } else {
        i
    }
}

/// The first index at or after `i` that is neither a space nor a tab.
pub open spec fn skip_blank(s: Seq<u8>, i: int) -> int
    decreases s.len() - i,
{
    if 0 <= i < s.len() && (s[i] == 32 || s[i] == 9) {
        skip_blank(s, i + 1)
    } else {
        i
    }
}

/// The end of the run of hexadecimal digits that starts at `i`.
pub open spec fn hex_run(s: Seq<u8>, i: int) -> int
    decreases s.len() - i,
{
    if 0 <= i < s.len() && is_hex_digit(s[i]) {
        hex_run(s, i + 1)
    } else {
        i
    }
}

/// The value of the hexadecimal digits `s[i..j]`.
pub open spec fn hex_value(s: Seq<u8>, i: int, j: int) -> nat
    decreases j - i,
{
    if j <= i {
        0
    } else {
        hex_value(s, i, j - 1) * 16 + hex_digit_value(s[j - 1])
    }
}

/// The end of the symbol name that starts at `i`: the first NUL (or end),
/// newline, space or tab.
pub open spec fn name_end(s: Seq<u8>, i: int) -> int
    decreases s.len() - i,
{
    if 0 <= i < s.len() && s[i] != 10 && s[i] != 32 && s[i] != 9 {
        name_end(s, i + 1)
    } else {
        i
    }
}

/// What `%lx` reads at the start of `s`: the value (an overflow gives the
/// largest value, a `-` sign negates modulo 2^64) and where it stopped.
pub open spec fn scan_hex(s: Seq<u8>) -> Option<(u64, int)> {
    let i0 = skip_space(s, 0);
    let signed = i0 < s.len() && (s[i0] == 45 || s[i0] == 43);
    let negative = i0 < s.len() && s[i0] == 45;
    let i1 = if signed { i0 + 1 } else { i0 };
    let prefixed = i1 + 1 < s.len() && s[i1] == 48 && (s[i1 + 1] == 120 || s[i1 + 1] == 88);
    let start = if prefixed { i1 + 2 } else { i1 };
    let end = hex_run(s, start);
    if !prefixed && end == start {
        None
    } else {
        let v = hex_value(s, start, end);
        let value: u64 = if v > u64::MAX {
            u64::MAX
        } else if negative {
            ((0x1_0000_0000_0000_0000 - v) % 0x1_0000_0000_0000_0000) as u64
        } else {
            v as u64
        };
        Some((value, end))
    }
}

/// What `sscanf(line, "%lx %c %n", ..)` stores: the address, then the
/// symbol kind and the offset of what follows; the kind is missing when
/// the line ends after the address.
pub open spec fn scan_nm_line(s: Seq<u8>) -> Option<(u64, Option<(u8, int)>)> {
    match scan_hex(s) {
        None => None,
        Some((addr, end)) => {
            let k = skip_space(s, end);
            if k >= s.len() {
                Some((addr, None))
            } else {
                Some((addr, Some((s[k], skip_space(s, k + 1)))))
            }
        },
    }
}

/// The symbol name of an `nm` line and where it starts, when there is one.
pub open spec fn nm_symbol(s: Seq<u8>) -> Option<Seq<u8>> {
    match scan_nm_line(s) {
        Some((_, Some((_, off)))) => {
            let j = skip_blank(s, off);
            if j >= s.len() || s[j] == 10 {
                None
            } else {
                Some(s.subrange(j, name_end(s, j)))
            }
        },
        _ => None,
    }
}

proof fn lemma_skip_space_bounds(s: Seq<u8>, i: int)
    requires
        0 <= i <= s.len(),
    ensures
        i <= skip_space(s, i) <= s.len(),
        forall|k: int| i <= k < skip_space(s, i) ==> is_c_space(#[trigger] s[k]),
        skip_space(s, i) < s.len() ==> !is_c_space(s[skip_space(s, i)]),
    decreases s.len() - i,
{
    if i < s.len() && is_c_space(s[i]) {
        lemma_skip_space_bounds(s, i + 1);
    }
}

proof fn lemma_skip_blank_bounds(s: Seq<u8>, i: int)
    requires
        0 <= i <= s.len(),
    ensures
        i <= skip_blank(s, i) <= s.len(),
    decreases s.len() - i,
{
    if i < s.len() && (s[i] == 32 || s[i] == 9) {
        lemma_skip_blank_bounds(s, i + 1);
    }
}

proof fn lemma_hex_run_bounds(s: Seq<u8>, i: int)
    requires
        0 <= i <= s.len(),
    ensures
        i <= hex_run(s, i) <= s.len(),
    decreases s.len() - i,
{
    if i < s.len() && is_hex_digit(s[i]) {
        lemma_hex_run_bounds(s, i + 1);
    }
}

proof fn lemma_name_end_bounds(s: Seq<u8>, i: int)
    requires
        0 <= i <= s.len(),
    ensures
        i <= name_end(s, i) <= s.len(),
    decreases s.len() - i,
{
    if i < s.len() && s[i] != 10 && s[i] != 32 && s[i] != 9 {
        lemma_name_end_bounds(s, i + 1);
    }
}

/// Skips C white space in `s[i..n]`.
fn skip_space_exec(s: &[u8], i: usize, n: usize) -> (r: usize)
    requires
        i <= n <= s@.len(),
    ensures
        r == skip_space(s@.take(n as int), i as int),
        i <= r <= n,
{
    let ghost t = s@.take(n as int);
    let mut k = i;
    while k < n && (s[k] == 32 || (9 <= s[k] && s[k] <= 13))
        invariant
            i <= k <= n,
            n <= s@.len(),
            t == s@.take(n as int),
            skip_space(t, i as int) == skip_space(t, k as int),
        decreases n - k,
    {
        assert(t[k as int] == s@[k as int]);
        k = k + 1;
    }
    proof {
        if k < n {
            assert(t[k as int] == s@[k as int]);
        }
    }
    k
}

/// Skips spaces and tabs in `s[i..n]`.
fn skip_blank_exec(s: &[u8], i: usize, n: usize) -> (r: usize)
    requires
        i <= n <= s@.len(),
    ensures
        r == skip_blank(s@.take(n as int), i as int),
        i <= r <= n,
{
    let ghost t = s@.take(n as int);
    let mut k = i;
    while k < n && (s[k] == 32 || s[k] == 9)
        invariant
            i <= k <= n,
            n <= s@.len(),
            t == s@.take(n as int),
            skip_blank(t, i as int) == skip_blank(t, k as int),
        decreases n - k,
    {
        assert(t[k as int] == s@[k as int]);
        k = k + 1;
    }
    proof {
        if k < n {
            assert(t[k as int] == s@[k as int]);
        }
    }
    k
}

/// Reads the hexadecimal digits of `s[i..n]`: where they end and their
/// value, saturated at the largest `u64`.
fn hex_run_exec(s: &[u8], i: usize, n: usize) -> (r: (usize, u64, bool))
    requires
        i <= n <= s@.len(),
    ensures
        r.0 == hex_run(s@.take(n as int), i as int),
        i <= r.0 <= n,
        r.2 == (hex_value(s@.take(n as int), i as int, r.0 as int) > u64::MAX),
        r.1 == (if r.2 {
            u64::MAX
        } else {
            hex_value(s@.take(n as int), i as int, r.0 as int) as u64
        }),
{
    let ghost t = s@.take(n as int);
    let mut k = i;
    let mut v: u128 = 0;
    let mut saturated = false;
    while k < n && ((48 <= s[k] && s[k] <= 57) || (97 <= s[k] && s[k] <= 102) || (65 <= s[k] && s[k] <= 70))
        invariant
            i <= k <= n,
            n <= s@.len(),
            t == s@.take(n as int),
            hex_run(t, i as int) == hex_run(t, k as int),
            saturated <==> hex_value(t, i as int, k as int) > u64::MAX,
            !saturated ==> v == hex_value(t, i as int, k as int),
        decreases n - k,
    {
        assert(t[k as int] == s@[k as int]);
        let c = s[k];
        let d: u128 = if 48 <= c && c <= 57 {
            (c - 48) as u128
        } else if 97 <= c && c <= 102 {
            (c - 87) as u128
        } else {
            (c - 55) as u128
        };
        assert(hex_value(t, i as int, k + 1) == hex_value(t, i as int, k as int) * 16 + d);
        if !saturated {
            v = v * 16 + d;
            if v > 0xffff_ffff_ffff_ffff {
                saturated = true;
            }
        } else {
            assert(hex_value(t, i as int, k + 1) >= hex_value(t, i as int, k as int)) by (nonlinear_arith)
                requires
                    hex_value(t, i as int, k + 1) == hex_value(t, i as int, k as int) * 16 + d,
            ;
        }
        k = k + 1;
    }
    proof {
        if k < n {
            assert(t[k as int] == s@[k as int]);
        }
    }
    if saturated {
        (k, u64::MAX, true)
    } else {
        (k, v as u64, false)
    }
}

/// The end of the symbol name starting at `i` in `s[..n]`.
fn name_end_exec(s: &[u8], i: usize, n: usize) -> (r: usize)
    requires
        i <= n <= s@.len(),
    ensures
        r == name_end(s@.take(n as int), i as int),
        i <= r <= n,
{
    let ghost t = s@.take(n as int);
    let mut k = i;
    while k < n && s[k] != 10 && s[k] != 32 && s[k] != 9
        invariant
            i <= k <= n,
            n <= s@.len(),
            t == s@.take(n as int),
            name_end(t, i as int) == name_end(t, k as int),
        decreases n - k,
    {
        assert(t[k as int] == s@[k as int]);
        k = k + 1;
    }
    proof {
        if k < n {
            assert(t[k as int] == s@[k as int]);
        }
    }
    k
}

/// Reads one line of `nm -B` output: `address kind name`.  Returns 1 and
/// the name (cut to fit `name`, NUL-terminated) when the line has all
/// three; else 0.  `addr` and `kind` receive what was read, as `sscanf`
/// stores them, also when the line has no name.
pub fn stacktrace_parse_nm_symbol_line_8(line: &[u8], addr: &mut u64, kind: &mut u8, name: &mut Vec<u8>) -> (r: i32)
    ensures
        old(name)@.len() == 0 ==> r == 0 && final(name)@ == old(name)@ && *final(addr) == *old(addr)
            && *final(kind) == *old(kind),
        old(name)@.len() > 0 ==> {
            let s = c_string(line@);
            &&& match scan_nm_line(s) {
                None => *final(addr) == *old(addr) && *final(kind) == *old(kind),
                Some((a, None)) => *final(addr) == a && *final(kind) == *old(kind),
                Some((a, Some((k, _)))) => *final(addr) == a && *final(kind) == k,
            }
            &&& match nm_symbol(s) {
                None => r == 0 && final(name)@ == old(name)@.update(0, 0u8),
                Some(sym) => {
                    let w = if sym.len() < old(name)@.len() { sym.len() as int } else { old(name)@.len() - 1 };
                    r == 1 && final(name)@ == sym.take(w) + seq![0u8] + old(name)@.skip(w + 1)
                },
            }
        },
{
    let size = name.len();
    if size == 0 {
        return 0;
    }
    name.set(0, 0);
    let ghost n0 = name@;
    let n = c_string_len(line);
    let ghost s = line@.take(n as int);
    assert(s == c_string(line@));
    proof {
        lemma_skip_space_bounds(s, 0);
    }
    // %lx
    let i0 = skip_space_exec(line, 0, n);
    let negative = i0 < n && line[i0] == 45;
    let signed = i0 < n && (line[i0] == 45 || line[i0] == 43);
    let i1 = if signed { i0 + 1 } else { i0 };
    let prefixed = i1 < n && i1 + 1 < n && line[i1] == 48 && (line[i1 + 1] == 120 || line[i1 + 1] == 88);
    let start = if prefixed { i1 + 2 } else { i1 };
    proof {
        assert(i0 < n ==> s[i0 as int] == line@[i0 as int]);
        assert(i1 + 1 < n ==> s[i1 as int] == line@[i1 as int] && s[i1 + 1] == line@[i1 + 1]);
    }
    let (end, mag, overflow) = hex_run_exec(line, start, n);
    if !prefixed && end == start {
        return 0;
    }
    let value: u64 = if overflow {
        u64::MAX
    } else if negative {
        if mag == 0 { 0 } else { u64::MAX - mag + 1 }
    } else {
        mag
    };
    let ghost hv = hex_value(s, start as int, end as int);
    assert(scan_hex(s) == Some((value, end as int)));
    *addr = value;
    // " %c"
    let k = skip_space_exec(line, end, n);
    if k >= n {
        return 0;
    }
    assert(s[k as int] == line@[k as int]);
    *kind = line[k];
    // " %n"
    let off = skip_space_exec(line, k + 1, n);
    // the name
    let j = skip_blank_exec(line, off, n);
    if j >= n || line[j] == 10 {
        proof {
            if j < n {
                assert(s[j as int] == line@[j as int]);
            }
        }
        return 0;
    }
    assert(s[j as int] == line@[j as int]);
    let e = name_end_exec(line, j, n);
    let ghost sym = s.subrange(j as int, e as int);
    let mut i: usize = 0;
    while j + i < e && i + 1 < size
        invariant
            j <= e <= n,
            n <= line@.len(),
            s == line@.take(n as int),
            sym == s.subrange(j as int, e as int),
            size == name@.len(),
            size == n0.len(),
            size > 0,
            i < size,
            j + i <= e,
            name@ == sym.take(i as int) + n0.skip(i as int),
        decreases e - (j + i),
    {
        assert(sym[i as int] == line@[j + i]);
        name.set(i, line[j + i]);
        assert(name@ =~= sym.take(i + 1) + n0.skip(i + 1));
        i = i + 1;
    }
    name.set(i, 0);
    proof {
        let w = if sym.len() < size { sym.len() as int } else { size - 1 };
        assert(i == w);
        assert(name@ =~= sym.take(w) + seq![0u8] + n0.skip(w + 1));
        assert(n0.skip(w + 1) =~= old(name)@.skip(w + 1));
    }
    1
}

} // verus!
