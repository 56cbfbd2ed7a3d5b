//! Names and metadata of saved loops and scenes.
//!
//! A saved object is stored as `<library>/<base>-<hash>[-<name>]<ext>`, where
//! `<hash>` is the 32-digit upper-case hexadecimal MD5 of its signal.

use vstd::prelude::*;
use vstd::utf8::*;
use vstd::string::*;
use crate::md5::{md5, md5_digest};
use crate::datatypes::{f32_as_int, f32_bits_as_int, f32_fixed5, push_f32_fixed5};
use crate::text::{push_char, push_str, push_decimal_i64, push_decimal_u64, decimal_int, decimal_nat, string_from, str_byte_slice, lemma_boundary_after_ascii};

verus! {

pub const HASH_LENGTH: usize = 16;
pub const LOOP_FORMAT_VERSION: u32 = 1;

/// An object that is saved under the hash of its contents.
pub trait Saveable {
    fn save_hash(&self) -> Option<[u8; 16]>;
    fn set_save_hash(&mut self, hash: [u8; 16]);
}

/// A loop that can be saved: its audio as bytes, its name and its length.
pub trait LoopSource: Saveable {
    fn audio_bytes(&self) -> &[u8];

    fn object_name(&self) -> Option<&str>;

    fn nbeats(&self) -> i64;

    fn pulse_length(&self) -> u32;
}

/// A loop that also hands out its samples (each an `f32` given by its
/// bits), for hashing the signal itself.
pub trait AudioLoopSource: LoopSource {
    fn sample_rate(&self) -> u32;

    fn left_samples(&self) -> &[u32];

    fn right_samples(&self) -> Option<&[u32]>;
}

/// The three paths of a saved loop.
#[derive(Debug, Clone, PartialEq, Eq)]
pub struct LoopPath {
    pub stub: String,
    pub audio: String,
    pub data: String,
}

// ------------------------------------------------------------------
// Hexadecimal hash text
// ------------------------------------------------------------------

/// Upper-case hexadecimal digit for `0 <= d < 16`.
pub open spec fn hex_digit_upper(d: int) -> char {
    if d < 10 { ((d + 48) as u8) as char } else { ((d + 55) as u8) as char }
}

/// Two upper-case hexadecimal digits per byte, most significant first.
pub open spec fn hex_upper(bytes: Seq<u8>) -> Seq<char> {
    Seq::new(
        2 * bytes.len(),
        |i: int|
            if i % 2 == 0 {
                hex_digit_upper((bytes[i / 2] / 16) as int)
            } else {
                hex_digit_upper((bytes[i / 2] % 16) as int)
            },
    )
}

/// Value of a hexadecimal digit byte (either case).
pub open spec fn hex_value(b: u8) -> Option<u8> {
    if 48 <= b <= 57 {
        Some((b - 48) as u8)
    } else if 65 <= b <= 70 {
        Some((b - 55) as u8)
    } else if 97 <= b <= 102 {
        Some((b - 87) as u8)
    } else {
        None
    }
}

/// What `u8::from_str_radix(.., 16)` makes of a two-byte text: two hex
/// digits, or a `+` and one hex digit.
pub open spec fn hex_pair_value(b0: u8, b1: u8) -> Option<u8> {
    if b0 == 43 {
        hex_value(b1)
    } else {
        match (hex_value(b0), hex_value(b1)) {
            (Some(h), Some(l)) => Some((h * 16 + l) as u8),
            _ => None,
        }
    }
}

/// Pair `k` of a hash text parses.
pub open spec fn hash_pair_ok(b: Seq<u8>, k: int) -> bool {
    hex_pair_value(b[2 * k], b[2 * k + 1]) is Some
}

/// The hash that a 32-byte text spells, when every pair parses.
pub open spec fn decode_hash_spec(b: Seq<u8>) -> Option<Seq<u8>> {
    if b.len() == 32 && forall|k: int| 0 <= k < 16 ==> #[trigger] hash_pair_ok(b, k) {
        Some(Seq::new(16, |k: int| hex_pair_value(b[2 * k], b[2 * k + 1]).unwrap()))
    } else {
        None
    }
}

/// Decoding reads the pairs in order and slices each one out of the text
/// first; the slice ends inside a character when a pair is followed by a
/// UTF-8 continuation byte, and such a slice cannot be taken.
pub open spec fn decode_hash_would_split_char(b: Seq<u8>) -> bool {
    b.len() == 32 && exists|k: int|
        0 <= k < 15 && (forall|j: int| 0 <= j < k ==> #[trigger] hash_pair_ok(b, j))
            && is_continuation_byte(#[trigger] b[2 * k + 2])
}

fn hex_value_exec(b: u8) -> (r: Option<u8>)
    ensures
        r == hex_value(b),
{
    if 48 <= b && b <= 57 {
        Some(b - 48)
    } else if 65 <= b && b <= 70 {
        Some(b - 55)
    } else if 97 <= b && b <= 102 {
        Some(b - 87)
    } else {
        None
    }
}

fn hex_pair_value_exec(b0: u8, b1: u8) -> (r: Option<u8>)
    ensures
        r == hex_pair_value(b0, b1),
{
    if b0 == 43 {
        hex_value_exec(b1)
    } else {
        match (hex_value_exec(b0), hex_value_exec(b1)) {
            (Some(h), Some(l)) => Some(h * 16 + l),
            _ => None,
        }
    }
}

fn hex_digit_upper_exec(d: u8) -> (c: char)
    requires
        d < 16,
    ensures
        c == hex_digit_upper(d as int),
{
    if d < 10 { (d + 48) as char } else { (d + 55) as char }
}

/// The hash as 32 upper-case hexadecimal digits.
pub fn encode_hash(hash: &[u8; 16]) -> (s: String)
    ensures
        s@ == hex_upper(hash@),
{
    let mut s = String::new();
    let mut i: usize = 0;
    while i < 16
        invariant
            i <= 16,
            s@ == hex_upper(hash@.subrange(0, i as int)),
        decreases 16 - i,
    {
        let b = hash[i];
        push_char(&mut s, hex_digit_upper_exec(b / 16));
        push_char(&mut s, hex_digit_upper_exec(b % 16));
        i = i + 1;
        assert(s@ =~= hex_upper(hash@.subrange(0, i as int)));
    }
    assert(hash@.subrange(0, 16) =~= hash@);
    s
}

/// Parses a hash written as 32 hexadecimal digits (as `encode_hash`
/// writes it; lower case and `+`-prefixed single digits are accepted too,
/// as `u8::from_str_radix` accepts them).
pub fn decode_hash(s: &str) -> (r: Option<[u8; 16]>)
    requires
        !decode_hash_would_split_char(s.spec_bytes()),
    ensures
        match decode_hash_spec(s.spec_bytes()) {
            Some(h) => r matches Some(out) && out@ == h,
            None => r is None,
        },
{
    let b = s.as_bytes();
    if b.len() != 32 {
        return None;
    }
    let mut out: [u8; 16] = [0u8; 16];
    let mut i: usize = 0;
    while i < 16
        invariant
            i <= 16,
            b@ == s.spec_bytes(),
            b@.len() == 32,
            forall|k: int| 0 <= k < i ==> #[trigger] hash_pair_ok(b@, k),
            forall|k: int| 0 <= k < i ==> out@[k] == hex_pair_value(b@[2 * k], b@[2 * k + 1]).unwrap(),
        decreases 16 - i,
    {
        match hex_pair_value_exec(b[2 * i], b[2 * i + 1]) {
            Some(v) => {
                out[i] = v;
            },
            None => {
                assert(!hash_pair_ok(b@, i as int));
                return None;
            },
        }
        i = i + 1;
    }
    assert(out@ =~= Seq::new(16, |k: int| hex_pair_value(b@[2 * k], b@[2 * k + 1]).unwrap()));
    Some(out)
}

/// Law: a hash written by `encode_hash` reads back as the same hash, and
/// reading it never splits a character.
pub proof fn law_hash_text_round_trip(h: Seq<u8>)
    requires
        h.len() == 16,
    ensures
        decode_hash_spec(encode_utf8(hex_upper(h))) == Some(h),
        !decode_hash_would_split_char(encode_utf8(hex_upper(h))),
{
    let t = hex_upper(h);
    assert(is_ascii_chars(t)) by {
        assert forall|i: int| 0 <= i < t.len() implies '\0' <= #[trigger] t[i] <= '\u{7f}' by {}
    }
    is_ascii_chars_encode_utf8(t);
    let b = encode_utf8(t);
    assert forall|k: int| 0 <= k < 16 implies #[trigger] hash_pair_ok(b, k)
        && hex_pair_value(b[2 * k], b[2 * k + 1]).unwrap() == h[k] by {
        assert(b[2 * k] == t[2 * k] as u8);
        assert(b[2 * k + 1] == t[2 * k + 1] as u8);
    }
    assert(Seq::new(16, |k: int| hex_pair_value(b[2 * k], b[2 * k + 1]).unwrap()) =~= h);
    assert forall|k: int| 0 <= k < 15 implies !is_continuation_byte(#[trigger] b[2 * k + 2]) by {
        assert(b[2 * k + 2] == t[2 * k + 2] as u8);
    }
}

// ------------------------------------------------------------------
// File names
// ------------------------------------------------------------------

/// `<base>-<hash>[-<name>]<ext>`; an empty name is left out.
pub open spec fn stub_spec(
    base: Seq<char>,
    hash: Seq<char>,
    name: Option<Seq<char>>,
    ext: Option<Seq<char>>,
) -> Seq<char> {
    base + seq!['-'] + hash + (match name {
        Some(n) => if n.len() > 0 { seq!['-'] + n } else { Seq::empty() },
        None => Seq::empty(),
    }) + (match ext {
        Some(e) => e,
        None => Seq::empty(),
    })
}

/// The view of an optional text.
pub open spec fn opt_view(s: Option<&str>) -> Option<Seq<char>> {
    match s {
        Some(t) => Some(t@),
        None => None,
    }
}

/// The file-name stub of a saved object: `<base>-<hash>[-<name>]<ext>`.
pub fn saveable_stub(base: &str, hash: &str, name: Option<&str>, ext: Option<&str>) -> (s: String)
    ensures
        s@ == stub_spec(base@, hash@, opt_view(name), opt_view(ext)),
{
    let mut s = string_from(base);
    push_char(&mut s, '-');
    push_str(&mut s, hash);
    match name {
        Some(n) => {
            if !n.is_empty() {
                push_char(&mut s, '-');
                push_str(&mut s, n);
            }
        },
        None => {},
    }
    match ext {
        Some(e) => push_str(&mut s, e),
        None => {},
    }
    assert(s@ =~= stub_spec(base@, hash@, opt_view(name), opt_view(ext)));
    s
}

/// The path of a saved object inside `library`.
pub fn saveable_path(
    library: &str,
    base: &str,
    hash: &str,
    name: Option<&str>,
    ext: Option<&str>,
) -> (s: String)
    ensures
        s@ == library@ + seq!['/'] + stub_spec(base@, hash@, opt_view(name), opt_view(ext)),
{
    let mut s = string_from(library);
    push_char(&mut s, '/');
    let stub = saveable_stub(base, hash, name, ext);
    push_str(&mut s, stub.as_str());
    s
}

/// Index of the last byte `x` in `b`, or `-1`.
pub open spec fn rfind_spec(b: Seq<u8>, x: u8) -> int
    decreases b.len(),
{
    if b.len() == 0 {
        -1
    } else if b.last() == x {
        b.len() - 1
    } else {
        rfind_spec(b.drop_last(), x)
    }
}

/// Index of the first byte `x` in `b` at or after `from`, or `-1`.
pub open spec fn find_from_spec(b: Seq<u8>, from: int, x: u8) -> int
    decreases b.len() - from,
{
    if from < 0 || from >= b.len() {
        -1
    } else if b[from] == x {
        from
    } else {
        find_from_spec(b, from + 1, x)
    }
}

proof fn lemma_rfind(b: Seq<u8>, x: u8)
    ensures
        -1 <= rfind_spec(b, x) < b.len(),
        rfind_spec(b, x) >= 0 ==> b[rfind_spec(b, x)] == x,
    decreases b.len(),
{
    if b.len() > 0 && b.last() != x {
        lemma_rfind(b.drop_last(), x);
    }
}

proof fn lemma_find_from(b: Seq<u8>, from: int, x: u8)
    ensures
        find_from_spec(b, from, x) == -1 || (from <= find_from_spec(b, from, x) < b.len() && b[find_from_spec(b, from, x)] == x),
    decreases b.len() - from,
{
    if 0 <= from < b.len() && b[from] != x {
        lemma_find_from(b, from + 1, x);
    }
}

fn rfind_byte(b: &[u8], x: u8) -> (r: Option<usize>)
    ensures
        match r {
            Some(i) => i == rfind_spec(b@, x),
            None => rfind_spec(b@, x) == -1,
        },
{
    let mut i = b.len();
    assert(b@.subrange(0, i as int) =~= b@);
    while i > 0
        invariant
            i <= b@.len(),
            rfind_spec(b@, x) == rfind_spec(b@.subrange(0, i as int), x),
        decreases i,
    {
        let ghost pre = b@.subrange(0, i as int);
        if b[i - 1] == x {
            return Some(i - 1);
        }
        assert(pre.drop_last() =~= b@.subrange(0, i - 1));
        i = i - 1;
    }
    None
}

fn find_byte_from(b: &[u8], from: usize, x: u8) -> (r: Option<usize>)
    ensures
        match r {
            Some(i) => i == find_from_spec(b@, from as int, x),
            None => find_from_spec(b@, from as int, x) == -1,
        },
{
    let mut i = from;
    while i < b.len()
        invariant
            from <= i,
            find_from_spec(b@, from as int, x) == find_from_spec(b@, i as int, x),
        decreases b@.len() - i,
    {
        if b[i] == x {
            return Some(i);
        }
        i = i + 1;
    }
    None
}

/// Outcome of splitting a saved object's file name.
pub enum SplitOutcome {
    /// No text follows the library/base prefix (or the prefix length does
    /// not end at a character).
    BadFilename,
    /// The hash part is not 32 hexadecimal digits between the prefix and
    /// the name or extension.
    BadHash,
    /// The prefix, the hash and the name, as UTF-8 bytes.
    Parts(Seq<u8>, Seq<u8>, Seq<u8>),
}

/// Position of the extension's dot: the last `.`, or the end.
pub open spec fn split_dot(b: Seq<u8>) -> int {
    if rfind_spec(b, 46) >= 0 { rfind_spec(b, 46) } else { b.len() as int }
}

/// End of the hash: the first `-` after the separator, or the dot.
pub open spec fn split_breaker(b: Seq<u8>, base_len: int) -> int {
    if find_from_spec(b, base_len + 1, 45) >= 0 {
        find_from_spec(b, base_len + 1, 45)
    } else {
        split_dot(b)
    }
}

/// The prefix is well formed and followed by more text.
pub open spec fn split_has_rest(b: Seq<u8>, base_len: int) -> bool {
    base_len < b.len() && is_char_boundary(b, base_len)
}

/// The hash part has the right place and length.
pub open spec fn split_hash_placed(b: Seq<u8>, base_len: int) -> bool {
    let dot = split_dot(b);
    let breaker = split_breaker(b, base_len);
    !(dot < base_len + 1 || breaker < base_len + 1 || breaker - (base_len + 1) != 32)
}

/// How `split_filename` splits the bytes `b` of a file name.
pub open spec fn split_spec(b: Seq<u8>, base_len: int) -> SplitOutcome {
    if !split_has_rest(b, base_len) {
        SplitOutcome::BadFilename
    } else if !split_hash_placed(b, base_len) {
        SplitOutcome::BadHash
    } else {
        let dot = split_dot(b);
        let breaker = split_breaker(b, base_len);
        let hash = b.subrange(base_len + 1, breaker);
        if decode_hash_spec(hash) is None {
            SplitOutcome::BadHash
        } else {
            SplitOutcome::Parts(
                b.subrange(0, base_len),
                hash,
                if breaker < dot { b.subrange(breaker + 1, dot) } else { Seq::empty() },
            )
        }
    }
}

/// The inputs on which splitting would cut a character in two (a slice
/// that cannot be taken): a multi-byte character right after the prefix,
/// or one that the hash decoding cuts.
pub open spec fn split_would_split_char(b: Seq<u8>, base_len: int) -> bool {
    split_has_rest(b, base_len) && (!is_char_boundary(b, base_len + 1) || (split_hash_placed(
        b,
        base_len,
    ) && decode_hash_would_split_char(b.subrange(base_len + 1, split_breaker(b, base_len)))))
}

/// Splits `<prefix>-<hash>[-<name>]<ext>` where the prefix is the first
/// `base_len` bytes, into the prefix, the hash and the (possibly empty)
/// name.
pub fn split_filename(filename: &str, base_len: usize) -> (r: Result<(String, String, String), String>)
    requires
        !split_would_split_char(filename.spec_bytes(), base_len as int),
    ensures
        match split_spec(filename.spec_bytes(), base_len as int) {
            SplitOutcome::BadFilename => r matches Err(e) && e@ == "invalid filename: "@ + filename@,
            SplitOutcome::BadHash => r matches Err(e) && e@ == "invalid hash in filename: "@ + filename@,
            SplitOutcome::Parts(p, h, n) => r matches Ok((rp, rh, rn)) && encode_utf8(rp@) == p
                && encode_utf8(rh@) == h && encode_utf8(rn@) == n,
        },
{
    let b = filename.as_bytes();
    let len = b.len();
    proof {
        encode_utf8_valid_utf8(filename@);
    }
    if base_len > len || !filename.is_char_boundary(base_len) || base_len == len {
        let mut e = string_from("invalid filename: ");
        push_str(&mut e, filename);
        return Err(e);
    }
    let dot = match rfind_byte(b, 46u8) {
        Some(i) => i,
        None => len,
    };
    let start = base_len + 1;
    let breaker = match find_byte_from(b, start, 45u8) {
        Some(i) => i,
        None => dot,
    };
    proof {
        lemma_rfind(b@, 46u8);
        lemma_find_from(b@, start as int, 45u8);
    }
    if dot < start || breaker < start || breaker - start != 32 {
        let mut e = string_from("invalid hash in filename: ");
        push_str(&mut e, filename);
        return Err(e);
    }
    proof {
        if breaker < len {
            is_char_boundary_iff_not_is_continuation_byte(b@, breaker as int);
        } else {
            is_char_boundary_start_end_of_seq(b@);
        }
    }
    let hash_text = str_byte_slice(filename, start, breaker);
    match decode_hash(hash_text) {
        None => {
            let mut e = string_from("invalid hash in filename: ");
            push_str(&mut e, filename);
            return Err(e);
        },
        Some(_) => {},
    }
    let prefix = str_byte_slice(filename, 0, base_len);
    let name = if breaker < dot {
        proof {
            is_char_boundary_iff_not_is_continuation_byte(b@, breaker as int);
            lemma_boundary_after_ascii(b@, breaker as int);
            if dot < len {
                is_char_boundary_iff_not_is_continuation_byte(b@, dot as int);
            } else {
                is_char_boundary_start_end_of_seq(b@);
            }
        }
        string_from(str_byte_slice(filename, breaker + 1, dot))
    } else {
        String::new()
    };
    proof {
        is_char_boundary_start_end_of_seq(b@);
    }
    Ok((string_from(prefix), string_from(hash_text), name))
}

/// Encoding a concatenation encodes each part.
proof fn lemma_encode_concat(a: Seq<char>, b: Seq<char>)
    ensures
        encode_utf8(a + b) == encode_utf8(a) + encode_utf8(b),
    decreases a.len(),
{
    if a.len() == 0 {
        assert(a + b =~= b);
        assert(encode_utf8(a) =~= Seq::<u8>::empty());
        assert(encode_utf8(a) + encode_utf8(b) =~= encode_utf8(b));
    } else {
        assert((a + b).drop_first() =~= a.drop_first() + b);
        assert((a + b)[0] == a[0]);
        lemma_encode_concat(a.drop_first(), b);
        assert(encode_utf8(a + b) =~= encode_utf8(a) + encode_utf8(b));
    }
}

/// The bytes of a multi-byte UTF-8 encoding all have the top bit set.
proof fn lemma_multibyte_high(x: u32)
    by (bit_vector)
    ensures
        leading_byte_width_2(x) >= 0x80,
        leading_byte_width_3(x) >= 0x80,
        leading_byte_width_4(x) >= 0x80,
        last_continuation_byte(x) >= 0x80,
        second_last_continuation_byte(x) >= 0x80,
        third_last_continuation_byte(x) >= 0x80,
        x <= 0x7f ==> leading_byte_width_1(x) == x,
{
}

/// A text without the ASCII character `c` encodes to bytes without the
/// byte `c`.
proof fn lemma_encode_lacks_ascii(t: Seq<char>, c: char)
    requires
        (c as u32) < 0x80,
        forall|i: int| 0 <= i < t.len() ==> t[i] != c,
    ensures
        forall|j: int| 0 <= j < encode_utf8(t).len() ==> encode_utf8(t)[j] != c as u8,
    decreases t.len(),
{
    if t.len() > 0 {
        let x = t[0] as u32;
        lemma_multibyte_high(x);
        lemma_encode_lacks_ascii(t.drop_first(), c);
        let e = encode_scalar(x);
        char_is_scalar(t[0]);
        char_u32_cast(t[0], x);
        char_u32_cast(c, c as u32);
        assert forall|j: int| 0 <= j < e.len() implies e[j] != c as u8 by {
            if has_width_1_encoding(x) {
                assert(e =~= seq![leading_byte_width_1(x)]);
                assert(x != c as u32);
            } else if has_width_2_encoding(x) {
                assert(e =~= seq![leading_byte_width_2(x), last_continuation_byte(x)]);
            } else if has_width_3_encoding(x) {
                assert(e =~= seq![
                    leading_byte_width_3(x),
                    second_last_continuation_byte(x),
                    last_continuation_byte(x),
                ]);
            } else {
                assert(e =~= seq![
                    leading_byte_width_4(x),
                    third_last_continuation_byte(x),
                    second_last_continuation_byte(x),
                    last_continuation_byte(x),
                ]);
            }
        }
        let whole = encode_utf8(t);
        assert forall|j: int| 0 <= j < whole.len() implies whole[j] != c as u8 by {
            if j < e.len() {
                assert(whole[j] == e[j]);
            } else {
                assert(whole[j] == encode_utf8(t.drop_first())[j - e.len()]);
            }
        }
    }
}

/// The last byte `x` of `b` is at `k` when no `x` follows it.
proof fn lemma_rfind_at(b: Seq<u8>, x: u8, k: int)
    requires
        0 <= k < b.len(),
        b[k] == x,
        forall|j: int| k < j < b.len() ==> b[j] != x,
    ensures
        rfind_spec(b, x) == k,
    decreases b.len(),
{
    if k < b.len() - 1 {
        lemma_rfind_at(b.drop_last(), x, k);
    }
}

/// The first byte `x` at or after `from` is at `k` when none comes before.
proof fn lemma_find_from_at(b: Seq<u8>, from: int, x: u8, k: int)
    requires
        0 <= from <= k < b.len(),
        b[k] == x,
        forall|j: int| from <= j < k ==> b[j] != x,
    ensures
        find_from_spec(b, from, x) == k,
    decreases k - from,
{
    if from < k {
        lemma_find_from_at(b, from + 1, x, k);
    }
}

/// No byte `x` at or after `from`.
proof fn lemma_find_from_none(b: Seq<u8>, from: int, x: u8)
    requires
        0 <= from,
        forall|j: int| from <= j < b.len() ==> b[j] != x,
    ensures
        find_from_spec(b, from, x) == -1,
    decreases b.len() - from,
{
    if from < b.len() {
        lemma_find_from_none(b, from + 1, x);
    }
}

/// The name part of a stub: empty when the name is absent.
pub open spec fn name_or_empty(name: Option<Seq<char>>) -> Seq<char> {
    match name {
        Some(n) => n,
        None => Seq::empty(),
    }
}

/// Law: splitting the path of a saved object, with the library and base as
/// the prefix, gives back the prefix, the hash and the name (empty when
/// there was none), and never cuts a character.  This holds when the hash
/// text is one that decoding accepts and the extension is a `.` followed
/// by text without `.` or `-`.
pub proof fn law_split_gives_back_saved_parts(
    library: Seq<char>,
    base: Seq<char>,
    hash: Seq<char>,
    name: Option<Seq<char>>,
    ext: Seq<char>,
)
    requires
        decode_hash_spec(encode_utf8(hash)) is Some,
        ext.len() >= 1,
        ext[0] == '.',
        forall|i: int| 1 <= i < ext.len() ==> ext[i] != '.' && ext[i] != '-',
    ensures
        ({
            let prefix = library + seq!['/'] + base;
            let b = encode_utf8(library + seq!['/'] + stub_spec(base, hash, name, Some(ext)));
            let base_len = encode_utf8(prefix).len() as int;
            &&& !split_would_split_char(b, base_len)
            &&& split_spec(b, base_len) == SplitOutcome::Parts(
                encode_utf8(prefix),
                encode_utf8(hash),
                encode_utf8(name_or_empty(name)),
            )
        }),
{
    let prefix = library + seq!['/'] + base;
    let nm = name_or_empty(name);
    let mid: Seq<char> = if nm.len() > 0 { seq!['-'] + nm } else { Seq::empty() };
    let rest = ext.drop_first();
    let path = library + seq!['/'] + stub_spec(base, hash, name, Some(ext));
    assert(path =~= prefix + seq!['-'] + hash + mid + (seq!['.'] + rest));
    let pb = encode_utf8(prefix);
    let hb = encode_utf8(hash);
    let mb = encode_utf8(mid);
    let rb = encode_utf8(rest);
    let l = pb.len() as int;
    // the encodings of the one-character pieces
    lemma_multibyte_high('-' as u32);
    lemma_multibyte_high('.' as u32);
    assert(encode_utf8(seq!['-']) =~= seq![45u8]) by {
        reveal_with_fuel(encode_utf8, 2);
        assert(seq!['-'].drop_first() =~= Seq::<char>::empty());
        assert(seq!['-'][0] as u32 == 45);
        assert(encode_scalar(45) =~= seq![45u8]);
    }
    assert(encode_utf8(seq!['.']) =~= seq![46u8]) by {
        reveal_with_fuel(encode_utf8, 2);
        assert(seq!['.'].drop_first() =~= Seq::<char>::empty());
        assert(seq!['.'][0] as u32 == 46);
        assert(encode_scalar(46) =~= seq![46u8]);
    }
    lemma_encode_concat(seq!['.'], rest);
    let eb = seq![46u8] + rb;
    assert(nm.len() > 0 ==> mb == seq![45u8] + encode_utf8(nm)) by {
        if nm.len() > 0 {
            lemma_encode_concat(seq!['-'], nm);
        }
    }
    assert(nm.len() == 0 ==> mb.len() == 0) by {
        if nm.len() == 0 {
            assert(mid =~= Seq::<char>::empty());
        }
    }
    lemma_encode_concat(prefix, seq!['-']);
    lemma_encode_concat(prefix + seq!['-'], hash);
    lemma_encode_concat(prefix + seq!['-'] + hash, mid);
    lemma_encode_concat(prefix + seq!['-'] + hash + mid, seq!['.'] + rest);
    let b = encode_utf8(path);
    assert(b =~= pb + seq![45u8] + hb + mb + eb);
    // the bytes of the hash
    assert(hb.len() == 32);
    assert forall|i: int| 0 <= i < 32 implies #[trigger] hb[i] < 0x80 && hb[i] != 45 && hb[i] != 46 by {
        let k = i / 2;
        assert(hash_pair_ok(hb, k));
        if i % 2 == 0 {
            assert(i == 2 * k);
        } else {
            assert(i == 2 * k + 1);
        }
    }
    // the rest of the extension holds neither `.` nor `-`
    assert forall|i: int| 0 <= i < rest.len() implies rest[i] != '.' && rest[i] != '-' by {
        assert(rest[i] == ext[i + 1]);
    }
    lemma_encode_lacks_ascii(rest, '.');
    lemma_encode_lacks_ascii(rest, '-');
    let hend = l + 33;
    let dot = hend + mb.len();
    assert(b.len() == dot + 1 + rb.len());
    assert(b[l] == 45u8);
    assert(b[dot] == 46u8);
    assert forall|j: int| l + 1 <= j < hend implies #[trigger] b[j] == hb[j - l - 1] by {}
    // the last `.` is the extension's
    assert forall|j: int| dot < j < b.len() implies b[j] != 46u8 by {
        assert(b[j] == rb[j - dot - 1]);
    }
    lemma_rfind_at(b, 46u8, dot);
    assert(split_dot(b) == dot);
    // the first `-` after the separator ends the hash
    if nm.len() > 0 {
        assert(b[hend] == 45u8);
        assert forall|j: int| l + 1 <= j < hend implies b[j] != 45u8 by {
            assert(b[j] == hb[j - l - 1]);
        }
        lemma_find_from_at(b, l + 1, 45u8, hend);
    } else {
        assert forall|j: int| l + 1 <= j < b.len() implies b[j] != 45u8 by {
            if j < hend {
                assert(b[j] == hb[j - l - 1]);
            } else if j > dot {
                assert(b[j] == rb[j - dot - 1]);
            }
        }
        lemma_find_from_none(b, l + 1, 45u8);
    }
    assert(split_breaker(b, l) == hend);
    // character boundaries
    encode_utf8_valid_utf8(path);
    is_char_boundary_iff_not_is_continuation_byte(b, l);
    is_char_boundary_iff_not_is_continuation_byte(b, l + 1);
    assert(b[l + 1] == hb[0]);
    assert(split_has_rest(b, l));
    assert(split_hash_placed(b, l));
    assert(b.subrange(l + 1, hend) =~= hb);
    assert(b.subrange(0, l) =~= pb);
    assert(!decode_hash_would_split_char(hb)) by {
        assert forall|k: int| 0 <= k < 15 implies !is_continuation_byte(#[trigger] hb[2 * k + 2]) by {
            assert(hb[2 * k + 2] < 0x80);
        }
    }
    if nm.len() > 0 {
        assert(b.subrange(hend + 1, dot) =~= encode_utf8(nm));
    } else {
        assert(nm =~= Seq::<char>::empty());
        assert(encode_utf8(nm) =~= Seq::<u8>::empty());
    }
}

// ------------------------------------------------------------------
// Hashing and metadata
// ------------------------------------------------------------------

/// MD5 of the quantised audio bytes of a loop.
pub fn md5_audio(bytes: &[u8]) -> (h: [u8; 16])
    requires
        bytes@.len() * 8 <= u64::MAX,
    ensures
        h@ == md5_digest(bytes@),
{
    md5(bytes)
}

/// The bits of the `f32` with bits `bits` multiplied by 256: the exponent
/// grows by 8, which is exact for normal numbers; a product beyond the
/// largest finite value is an infinity of the same sign; zeros,
/// subnormals, infinities and NaN are kept as they are (a subnormal times
/// 256 stays below 1, which is all that the quantisation reads of it).
pub open spec fn scaled_by_256(bits: u32) -> u32 {
    let e = (bits / 0x80_0000) % 0x100;
    if e == 0 || e == 0xff {
        bits
    } else if e + 8 >= 0xff {
        (if bits >= 0x8000_0000 { 0xff80_0000u32 } else { 0x7f80_0000u32 })
    } else {
        (bits + 0x400_0000) as u32
    }
}

/// One sample quantised to a byte: the sample times 256, truncated toward
/// zero and saturated to `0..=255` (NaN gives 0).
pub open spec fn quantised_sample(bits: u32) -> u8 {
    f32_as_int(scaled_by_256(bits), 0, 255) as u8
}

/// The samples of a loop quantised to bytes, one byte per sample.
pub open spec fn quantised_samples(samples: Seq<u32>) -> Seq<u8> {
    Seq::new(samples.len(), |i: int| quantised_sample(samples[i]))
}

/// `quantised_sample` computed.
pub fn quantise_sample(bits: u32) -> (q: u8)
    ensures
        q == quantised_sample(bits),
{
    let e = (bits / 0x80_0000) % 0x100;
    let scaled: u32 = if e == 0 || e == 0xff {
        bits
    } else if e + 8 >= 0xff {
        if bits >= 0x8000_0000 { 0xff80_0000u32 } else { 0x7f80_0000u32 }
    } else {
        bits + 0x400_0000
    };
    let v = f32_bits_as_int(scaled, 0, 255);
    v as u8
}

/// Appends the quantised bytes of `samples` to `out`.
fn push_quantised(out: &mut Vec<u8>, samples: &[u32])
    ensures
        final(out)@ == old(out)@ + quantised_samples(samples@),
{
    let ghost start = out@;
    let mut i: usize = 0;
    while i < samples.len()
        invariant
            i <= samples@.len(),
            out@ == start + quantised_samples(samples@.subrange(0, i as int)),
        decreases samples@.len() - i,
    {
        let q = quantise_sample(samples[i]);
        out.push(q);
        i += 1;
        assert(quantised_samples(samples@.subrange(0, i as int)) =~= quantised_samples(
            samples@.subrange(0, i - 1),
        ).push(q));
    }
    assert(samples@.subrange(0, i as int) =~= samples@);
}

/// The hash of a loop's signal: each sample of the left channel, then each
/// of the right channel, quantised to a byte, and the MD5 of those bytes.
pub fn md5_loop_samples(left: &[u32], right: Option<&[u32]>) -> (h: [u8; 16])
    requires
        (left@.len() + match right {
            Some(r) => r@.len(),
            None => 0,
        }) * 8 <= u64::MAX,
    ensures
        h@ == md5_digest(
            quantised_samples(left@) + match right {
                Some(r) => quantised_samples(r@),
                None => Seq::<u8>::empty(),
            },
        ),
{
    let mut quantised: Vec<u8> = Vec::new();
    push_quantised(&mut quantised, left);
    match right {
        Some(r) => push_quantised(&mut quantised, r),
        None => {
            assert(quantised@ =~= quantised@ + Seq::<u8>::empty());
        },
    }
    md5_audio(quantised.as_slice())
}

/// The metadata document saved beside a loop's audio.
pub open spec fn loop_metadata_xml_spec(nbeats: int, pulse_length: nat) -> Seq<char> {
    "<?xml version=\"1.0\"?>\n<loop version=\""@ + decimal_nat(LOOP_FORMAT_VERSION as nat)
        + "\" nbeats=\""@ + decimal_int(nbeats) + "\" pulselen=\""@ + decimal_nat(pulse_length)
        + "\"/>\n"@
}

pub fn loop_metadata_xml(nbeats: i64, pulse_length: u32) -> (s: String)
    ensures
        s@ == loop_metadata_xml_spec(nbeats as int, pulse_length as nat),
{
    let mut s = string_from("<?xml version=\"1.0\"?>\n<loop version=\"");
    push_decimal_u64(&mut s, LOOP_FORMAT_VERSION as u64);
    push_str(&mut s, "\" nbeats=\"");
    push_decimal_i64(&mut s, nbeats);
    push_str(&mut s, "\" pulselen=\"");
    push_decimal_u64(&mut s, pulse_length as u64);
    push_str(&mut s, "\"/>\n");
    s
}

/// The XML escape of one character.
pub open spec fn xml_escape_char(c: char) -> Seq<char> {
    if c == '&' {
        seq!['&', 'a', 'm', 'p', ';']
    } else if c == '"' {
        seq!['&', 'q', 'u', 'o', 't', ';']
    } else if c == '<' {
        seq!['&', 'l', 't', ';']
    } else if c == '>' {
        seq!['&', 'g', 't', ';']
    } else {
        seq![c]
    }
}

/// Text with `&`, `"`, `<` and `>` replaced by their XML entities.
pub open spec fn xml_escape_spec(s: Seq<char>) -> Seq<char>
    decreases s.len(),
{
    if s.len() == 0 {
        Seq::empty()
    } else {
        xml_escape_spec(s.drop_last()) + xml_escape_char(s.last())
    }
}

/// Escapes text for an XML attribute value.
pub fn xml_escape(s: &str) -> (r: String)
    ensures
        r@ == xml_escape_spec(s@),
{
    let n = s.unicode_len();
    let mut r = String::new();
    let mut i: usize = 0;
    while i < n
        invariant
            i <= n,
            n == s@.len(),
            r@ == xml_escape_spec(s@.subrange(0, i as int)),
        decreases n - i,
    {
        let c = s.get_char(i);
        if c == '&' {
            push_str(&mut r, "&amp;");
        } else if c == '"' {
            push_str(&mut r, "&quot;");
        } else if c == '<' {
            push_str(&mut r, "&lt;");
        } else if c == '>' {
            push_str(&mut r, "&gt;");
        } else {
            push_char(&mut r, c);
        }
        proof {
            reveal_strlit("&amp;");
            reveal_strlit("&quot;");
            reveal_strlit("&lt;");
            reveal_strlit("&gt;");
            assert(s@.subrange(0, i + 1).drop_last() =~= s@.subrange(0, i as int));
        }
        i = i + 1;
        assert(r@ =~= xml_escape_spec(s@.subrange(0, i as int)));
    }
    assert(s@.subrange(0, n as int) =~= s@);
    r
}

// ------------------------------------------------------------------
// Scenes
// ------------------------------------------------------------------

/// A loop of a scene: its hash, its id and its volume (an `f32`, by its
/// bits).
#[derive(Debug)]
pub struct LoopMeta {
    pub hash: String,
    pub loop_id: i32,
    pub volume_bits: u32,
}

/// A loop's state in a snapshot; volumes are `f32`s, by their bits.
#[derive(Debug)]
pub struct SnapshotLoop {
    pub loop_id: i32,
    pub status: i32,
    pub loop_volume_bits: u32,
    pub trigger_volume_bits: u32,
}

/// A snapshot: its id, its name and its loops.
#[derive(Debug)]
pub struct SnapshotMeta {
    pub id: i32,
    pub name: String,
    pub loops: Vec<SnapshotLoop>,
}

/// The loops and snapshots of a scene.
#[derive(Debug)]
pub struct Scene {
    pub loops: Vec<LoopMeta>,
    pub snapshots: Vec<SnapshotMeta>,
}

/// The line of a scene loop.
pub open spec fn scene_loop_line(l: LoopMeta) -> Seq<char> {
    "  <loop loopid=\""@ + decimal_int(l.loop_id as int) + "\" hash=\""@ + l.hash@ + "\" volume=\""@
        + f32_fixed5(l.volume_bits) + "\"/>\n"@
}

/// The line of a loop in a snapshot.
pub open spec fn snapshot_loop_line(l: SnapshotLoop) -> Seq<char> {
    "    <loopsnapshot loopid=\""@ + decimal_int(l.loop_id as int) + "\" status=\""@ + decimal_int(l.status as int)
        + "\" loopvol=\""@ + f32_fixed5(l.loop_volume_bits) + "\" triggervol=\""@ + f32_fixed5(
        l.trigger_volume_bits,
    ) + "\"/>\n"@
}

/// The lines of the first `k` loops of a snapshot.
pub open spec fn snapshot_loop_lines(ls: Seq<SnapshotLoop>, k: nat) -> Seq<char>
    decreases k,
{
    if k == 0 {
        Seq::empty()
    } else {
        snapshot_loop_lines(ls, (k - 1) as nat) + snapshot_loop_line(ls[k - 1])
    }
}

/// The element of a snapshot.
pub open spec fn snapshot_text(s: SnapshotMeta) -> Seq<char> {
    "  <snapshot snapid=\""@ + decimal_int(s.id as int) + "\" name=\""@ + xml_escape_spec(s.name@) + "\">\n"@
        + snapshot_loop_lines(s.loops@, s.loops@.len()) + "  </snapshot>\n"@
}

/// The lines of the first `k` loops of a scene.
pub open spec fn scene_loop_lines(ls: Seq<LoopMeta>, k: nat) -> Seq<char>
    decreases k,
{
    if k == 0 {
        Seq::empty()
    } else {
        scene_loop_lines(ls, (k - 1) as nat) + scene_loop_line(ls[k - 1])
    }
}

/// The elements of the first `k` snapshots of a scene.
pub open spec fn snapshot_texts(ss: Seq<SnapshotMeta>, k: nat) -> Seq<char>
    decreases k,
{
    if k == 0 {
        Seq::empty()
    } else {
        snapshot_texts(ss, (k - 1) as nat) + snapshot_text(ss[k - 1])
    }
}

/// The document of a scene: its loops, then its snapshots.
pub open spec fn scene_xml_spec(scene: Scene) -> Seq<char> {
    "<?xml version=\"1.0\"?>\n<scene>\n"@ + scene_loop_lines(scene.loops@, scene.loops@.len()) + snapshot_texts(
        scene.snapshots@,
        scene.snapshots@.len(),
    ) + "</scene>\n"@
}

#[verifier::spinoff_prover]
#[verifier::rlimit(40)]
fn push_snapshot(x: &mut String, s: &SnapshotMeta)
    ensures
        final(x)@ == old(x)@ + snapshot_text(*s),
{
    let ghost start = x@;
    push_str(x, "  <snapshot snapid=\"");
    push_decimal_i64(x, s.id as i64);
    push_str(x, "\" name=\"");
    let esc = xml_escape(s.name.as_str());
    push_str(x, esc.as_str());
    push_str(x, "\">\n");
    let ghost head = x@;
    let mut k: usize = 0;
    while k < s.loops.len()
        invariant
            k <= s.loops@.len(),
            x@ == head + snapshot_loop_lines(s.loops@, k as nat),
        decreases s.loops@.len() - k,
    {
        let l = &s.loops[k];
        let ghost before = x@;
        push_str(x, "    <loopsnapshot loopid=\"");
        push_decimal_i64(x, l.loop_id as i64);
        push_str(x, "\" status=\"");
        push_decimal_i64(x, l.status as i64);
        push_str(x, "\" loopvol=\"");
        push_f32_fixed5(x, l.loop_volume_bits);
        push_str(x, "\" triggervol=\"");
        push_f32_fixed5(x, l.trigger_volume_bits);
        push_str(x, "\"/>\n");
        assert(x@ =~= before + snapshot_loop_line(*l));
        k = k + 1;
    }
    push_str(x, "  </snapshot>\n");
    assert(x@ =~= start + snapshot_text(*s));
}

/// The document of a scene, as saved.
#[verifier::spinoff_prover]
#[verifier::rlimit(40)]
pub fn scene_xml(scene: &Scene) -> (x: String)
    ensures
        x@ == scene_xml_spec(*scene),
{
    let mut x = string_from("<?xml version=\"1.0\"?>\n<scene>\n");
    let ghost head = x@;
    let mut k: usize = 0;
    while k < scene.loops.len()
        invariant
            k <= scene.loops@.len(),
            x@ == head + scene_loop_lines(scene.loops@, k as nat),
        decreases scene.loops@.len() - k,
    {
        let l = &scene.loops[k];
        let ghost before = x@;
        push_str(&mut x, "  <loop loopid=\"");
        push_decimal_i64(&mut x, l.loop_id as i64);
        push_str(&mut x, "\" hash=\"");
        push_str(&mut x, l.hash.as_str());
        push_str(&mut x, "\" volume=\"");
        push_f32_fixed5(&mut x, l.volume_bits);
        push_str(&mut x, "\"/>\n");
        assert(x@ =~= before + scene_loop_line(*l));
        k = k + 1;
    }
    let ghost mid = x@;
    let mut j: usize = 0;
    while j < scene.snapshots.len()
        invariant
            j <= scene.snapshots@.len(),
            x@ == mid + snapshot_texts(scene.snapshots@, j as nat),
        decreases scene.snapshots@.len() - j,
    {
        let ghost before = x@;
        push_snapshot(&mut x, &scene.snapshots[j]);
        assert(x@ =~= before + snapshot_text(scene.snapshots@[j as int]));
        j = j + 1;
    }
    push_str(&mut x, "</scene>\n");
    assert(x@ =~= scene_xml_spec(*scene));
    x
}

} // verus!
