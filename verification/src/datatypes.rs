//! Typed configuration values: the data types a value can have, ranges,
//! and user variables that keep a typed value in a small byte store.
//!
//! A variable keeps its value little-endian in the first bytes of `data`:
//! a `char` in one byte, an `int`, a range bound or the bit pattern of a
//! `float` in four, a `long` in eight.

use vstd::prelude::*;
use vstd::arithmetic::power2::{pow2, lemma2_to64, lemma2_to64_rest, lemma_pow2_strictly_increases, lemma_pow2_pos, lemma_pow2_adds};
use crate::text::{push_str, push_char, push_decimal_i64, push_decimal_u64, push_decimal_u128, decimal_int, decimal_nat, digit_char, string_from};

verus! {

/// Largest number of reader and writer threads.
pub const MAX_RW_THREADS: usize = 50;

/// Largest number of realtime data structures.
pub const MAX_RT_STRUCTS: usize = 20;

/// Number of data bytes in one variable.
pub const CFG_VAR_SIZE: usize = 16;

/// Something that follows the number of registered reader and writer
/// threads.
pub trait RtDataStructUpdater {
    fn update_num_rw_threads(&mut self, new_num_writers: i32);
}

/// The data type of a configuration value.
#[derive(Debug, Clone, Copy, PartialEq, Eq, Structural)]
pub enum CoreDataType {
    Char,
    Int,
    Long,
    Float,
    Range,
    Variable,
    VariableRef,
    Invalid,
}

/// The storage code of a data type.
pub open spec fn type_code(t: CoreDataType) -> u8 {
    match t {
        CoreDataType::Char => 0,
        CoreDataType::Int => 1,
        CoreDataType::Long => 2,
        CoreDataType::Float => 3,
        CoreDataType::Range => 4,
        CoreDataType::Variable => 5,
        CoreDataType::VariableRef => 6,
        CoreDataType::Invalid => 7,
    }
}

/// The data type named `name` in a configuration file.
pub open spec fn type_named(name: Seq<char>) -> CoreDataType {
    if name == "char"@ {
        CoreDataType::Char
    } else if name == "int"@ {
        CoreDataType::Int
    } else if name == "long"@ {
        CoreDataType::Long
    } else if name == "float"@ {
        CoreDataType::Float
    } else if name == "range"@ {
        CoreDataType::Range
    } else {
        CoreDataType::Invalid
    }
}

impl CoreDataType {
    /// The storage code of this type (`char` is 0, ..., invalid is 7).
    pub fn code(self) -> (c: u8)
        ensures
            c == type_code(self),
    {
        match self {
            CoreDataType::Char => 0,
            CoreDataType::Int => 1,
            CoreDataType::Long => 2,
            CoreDataType::Float => 3,
            CoreDataType::Range => 4,
            CoreDataType::Variable => 5,
            CoreDataType::VariableRef => 6,
            CoreDataType::Invalid => 7,
        }
    }

    /// The data type named `name`; unknown names are invalid.
    pub fn from_name(name: &str) -> (t: CoreDataType)
        ensures
            t == type_named(name@),
    {
        if crate::text::str_eq(name, "char") {
            CoreDataType::Char
        } else if crate::text::str_eq(name, "int") {
            CoreDataType::Int
        } else if crate::text::str_eq(name, "long") {
            CoreDataType::Long
        } else if crate::text::str_eq(name, "float") {
            CoreDataType::Float
        } else if crate::text::str_eq(name, "range") {
            CoreDataType::Range
        } else {
            CoreDataType::Invalid
        }
    }
}

/// An integer range.
#[derive(Debug, Clone, Copy, PartialEq, Eq, Structural)]
pub struct Range {
    pub lo: i32,
    pub hi: i32,
}

impl Range {
    pub fn new(lo: i32, hi: i32) -> (r: Range)
        ensures
            r.lo == lo,
            r.hi == hi,
    {
        Range { lo, hi }
    }
}

/// The four bytes at `at`, little-endian, as a `u32`.
pub open spec fn read_u32(d: [u8; 16], at: int) -> u32 {
    (d[at] as u32) | ((d[at + 1] as u32) << 8u32) | ((d[at + 2] as u32) << 16u32) | ((d[at + 3] as u32)
        << 24u32)
}

/// The eight bytes at the start, little-endian, as a `u64`.
pub open spec fn read_u64(d: [u8; 16]) -> u64 {
    (read_u32(d, 0) as u64) | ((read_u32(d, 4) as u64) << 32u64)
}

// ------------------------------------------------------------------
// Floats by their bit patterns
// ------------------------------------------------------------------

/// The value of an `f32`, given by its IEEE-754 bits, truncated toward
/// zero; `None` for NaN.  Infinities stand beyond every integer type.
pub open spec fn f32_truncated(bits: u32) -> Option<int> {
    let e = (bits / 0x80_0000) % 0x100;
    let m = bits % 0x80_0000;
    let neg = bits >= 0x8000_0000;
    if e == 0xff {
        if m != 0 {
            None
        } else {
            Some(if neg { -pow2(128) } else { pow2(128) as int })
        }
    } else if e < 127 {
        Some(0)
    } else {
        let full: int = m + 0x80_0000;
        let mag: int = if e >= 150 {
            full * pow2((e - 150) as nat)
        } else {
            full / (pow2((150 - e) as nat) as int)
        };
        Some(if neg { -mag } else { mag })
    }
}

/// What `as` makes of an `f32` (given by its bits) in an integer type
/// ranging over `[lo, hi]`: truncated toward zero, saturated at the
/// bounds, and 0 for NaN.
pub open spec fn f32_as_int(bits: u32, lo: int, hi: int) -> int {
    match f32_truncated(bits) {
        None => 0,
        Some(v) => if v < lo {
            lo
        } else if v > hi {
            hi
        } else {
            v
        },
    }
}

/// `as` from an `f32`, given by its bits, to an integer type ranging over
/// `[lo, hi]`.
pub fn f32_bits_as_int(bits: u32, lo: i64, hi: i64) -> (r: i64)
    requires
        lo <= 0 <= hi,
    ensures
        r == f32_as_int(bits, lo as int, hi as int),
{
    let e = (bits / 0x80_0000) % 0x100;
    let m = bits % 0x80_0000;
    let neg = bits >= 0x8000_0000;
    proof {
        lemma2_to64();
        lemma2_to64_rest();
    }
    if e == 0xff {
        if m != 0 {
            return 0;
        }
        proof {
            lemma_pow2_strictly_increases(64, 128);
        }
        return if neg { lo } else { hi };
    }
    if e < 127 {
        return 0;
    }
    let full: u64 = (m as u64) + 0x80_0000;
    if e >= 190 {
        proof {
            let s = (e - 150) as nat;
            if s > 40 {
                lemma_pow2_strictly_increases(40, s);
            }
            assert(full * pow2(s) >= 0x80_0000 * pow2(40)) by (nonlinear_arith)
                requires
                    full >= 0x80_0000,
                    pow2(s) >= pow2(40),
            ;
            assert(0x80_0000 * pow2(40) == 0x8000_0000_0000_0000int) by {
                vstd::arithmetic::power2::lemma_pow2_adds(23, 40);
                assert(pow2(23) * pow2(40) == pow2(63));
                assert(pow2(23) == 0x80_0000);
                assert(pow2(63) == 0x8000_0000_0000_0000);
            }
        }
        return if neg { lo } else { hi };
    }
    let mag: u64 = if e >= 150 {
        let sh = (e - 150) as u64;
        proof {
            if sh < 39 {
                lemma_pow2_strictly_increases(sh as nat, 39);
            }
            assert(full * pow2(sh as nat) < 0x100_0000 * pow2(39)) by (nonlinear_arith)
                requires
                    full < 0x100_0000,
                    pow2(sh as nat) <= pow2(39),
                    pow2(sh as nat) > 0,
            ;
            assert(0x100_0000 * pow2(39) == 0x8000_0000_0000_0000int) by {
                vstd::arithmetic::power2::lemma_pow2_adds(24, 39);
                assert(pow2(24) * pow2(39) == pow2(63));
                assert(pow2(24) == 0x100_0000);
                assert(pow2(63) == 0x8000_0000_0000_0000);
            }
            lemma_pow2_pos(sh as nat);
            vstd::bits::lemma_u64_shl_is_mul(full, sh);
        }
        full << sh
    } else {
        let sh = (150 - e) as u64;
        proof {
            vstd::bits::lemma_u64_shr_is_div(full, sh);
            lemma_pow2_pos(sh as nat);
            assert((full as int) / (pow2(sh as nat) as int) <= full) by (nonlinear_arith)
                requires
                    pow2(sh as nat) > 0,
            ;
        }
        full >> sh
    };
    assert(mag < 0x8000_0000_0000_0000u64);
    let v: i64 = if neg { -(mag as i64) } else { mag as i64 };
    if v < lo {
        lo
    } else if v > hi {
        hi
    } else {
        v
    }
}

/// `n / d` rounded to the nearest integer, ties to the even one.
pub open spec fn round_half_even(n: nat, d: nat) -> nat {
    let q = n / d;
    let r = n % d;
    if 2 * r < d {
        q
    } else if 2 * r > d {
        q + 1
    } else if q % 2 == 0 {
        q
    } else {
        q + 1
    }
}

/// The magnitude of a finite `f32` (given by its bits) in hundredths,
/// rounded to the nearest, ties to even.
pub open spec fn f32_hundredths(bits: u32) -> nat {
    let e = (bits / 0x80_0000) % 0x100;
    let m = bits % 0x80_0000;
    let full: nat = if e == 0 { m as nat } else { (m + 0x80_0000) as nat };
    if e >= 150 {
        full * 100 * pow2((e - 150) as nat)
    } else {
        round_half_even(full * 100, pow2((if e == 0 { 149 } else { 150 - e }) as nat))
    }
}

/// An `f32` (given by its bits) as text with two decimals, the way `{:.2}`
/// writes it: a `-` for a negative sign, `NaN`, `inf` and `-inf`.
pub open spec fn f32_fixed2(bits: u32) -> Seq<char> {
    let e = (bits / 0x80_0000) % 0x100;
    let m = bits % 0x80_0000;
    let neg = bits >= 0x8000_0000;
    if e == 0xff {
        if m != 0 {
            "NaN"@
        } else if neg {
            "-inf"@
        } else {
            "inf"@
        }
    } else {
        let h = f32_hundredths(bits);
        (if neg { seq!['-'] } else { Seq::empty() }) + decimal_nat(h / 100) + seq!['.'] + seq![
            digit_char(((h / 10) % 10) as int),
            digit_char((h % 10) as int),
        ]
    }
}

/// Appends an `f32` (given by its bits) with two decimals (see
/// `f32_fixed2`).
pub fn push_f32_fixed2(s: &mut String, bits: u32)
    ensures
        final(s)@ == old(s)@ + f32_fixed2(bits),
{
    let e = (bits / 0x80_0000) % 0x100;
    let m = bits % 0x80_0000;
    let neg = bits >= 0x8000_0000;
    if e == 0xff {
        if m != 0 {
            push_str(s, "NaN");
        } else if neg {
            push_str(s, "-inf");
        } else {
            push_str(s, "inf");
        }
        return;
    }
    let ghost start = s@;
    if neg {
        push_char(s, '-');
    }
    let ghost signed = s@;
    let full: u64 = if e == 0 { m as u64 } else { (m as u64) + 0x80_0000 };
    proof {
        lemma2_to64();
        lemma2_to64_rest();
    }
    if e >= 150 {
        let sh = e - 150;
        let mut v: u128 = full as u128;
        let mut i: u32 = 0;
        proof {
            assert(pow2(24) * pow2(104) == pow2(128)) by {
                vstd::arithmetic::power2::lemma_pow2_adds(24, 104);
            }
            assert(pow2(64) * pow2(64) == pow2(128)) by {
                vstd::arithmetic::power2::lemma_pow2_adds(64, 64);
            }
            assert(pow2(128) == 0x1_0000_0000_0000_0000_0000_0000_0000_0000nat);
            assert(full < pow2(24));
            if sh < 104 {
                lemma_pow2_strictly_increases(sh as nat, 104);
            }
            lemma_pow2_pos(sh as nat);
            assert(full * pow2(sh as nat) < pow2(24) * pow2(104)) by (nonlinear_arith)
                requires
                    full < pow2(24),
                    pow2(sh as nat) <= pow2(104),
                    pow2(sh as nat) > 0,
            ;
        }
        while i < sh
            invariant
                i <= sh,
                sh <= 104,
                v == full * pow2(i as nat),
                full * pow2(sh as nat) < 0x1_0000_0000_0000_0000_0000_0000_0000_0000nat,
            decreases sh - i,
        {
            proof {
                vstd::arithmetic::power2::lemma_pow2_unfold((i + 1) as nat);
                if i + 1 < sh {
                    lemma_pow2_strictly_increases((i + 1) as nat, sh as nat);
                }
                assert(full * pow2((i + 1) as nat) <= full * pow2(sh as nat)) by (nonlinear_arith)
                    requires
                        pow2((i + 1) as nat) <= pow2(sh as nat),
                ;
                assert(full * pow2((i + 1) as nat) == 2 * (full * pow2(i as nat))) by (nonlinear_arith)
                    requires
                        pow2((i + 1) as nat) == 2 * pow2(i as nat),
                ;
            }
            v = v * 2;
            i = i + 1;
        }
        push_decimal_u128(s, v);
        push_str(s, ".00");
        proof {
            let p = pow2(sh as nat);
            let h = full * 100 * p;
            assert(h == (full * p) * 100) by (nonlinear_arith)
                requires
                    h == full * 100 * p,
            ;
            assert(h / 100 == full * p) by (nonlinear_arith)
                requires
                    h == (full * p) * 100,
            ;
            assert(h % 100 == 0) by (nonlinear_arith)
                requires
                    h == (full * p) * 100,
            ;
            assert(f32_hundredths(bits) == h);
            assert((h / 10) % 10 == 0) by (nonlinear_arith)
                requires
                    h == (full * p) * 100,
            ;
            reveal_strlit(".00");
            assert(s@ =~= old(s)@ + f32_fixed2(bits));
        }
    } else {
        let k: u32 = if e == 0 { 149 } else { 150 - e };
        let n: u64 = full * 100;
        let h: u64 = if k >= 32 {
            proof {
                if k > 32 {
                    lemma_pow2_strictly_increases(32, k as nat);
                }
                assert(n < pow2(31));
                assert((n as nat) / pow2(k as nat) == 0) by (nonlinear_arith)
                    requires
                        n < pow2(31),
                        pow2(31) < pow2(32),
                        pow2(32) <= pow2(k as nat),
                ;
                assert((n as nat) % pow2(k as nat) == n) by (nonlinear_arith)
                    requires
                        n < pow2(31),
                        pow2(31) < pow2(32),
                        pow2(32) <= pow2(k as nat),
                ;
                assert(round_half_even(n as nat, pow2(k as nat)) == 0);
            }
            0
        } else {
            proof {
                vstd::bits::lemma_u64_pow2_no_overflow(k as nat);
                lemma_pow2_pos(k as nat);
                vstd::bits::lemma_u64_shl_is_mul(1, k as u64);
            }
            let d: u64 = 1u64 << (k as u64);
            assert(d == pow2(k as nat));
            let q = n / d;
            let r = n % d;
            assert(r < d);
            if 2 * r < d {
                q
            } else if 2 * r > d {
                q + 1
            } else if q % 2 == 0 {
                q
            } else {
                q + 1
            }
        };
        assert(h == f32_hundredths(bits));
        push_decimal_u64(s, h / 100);
        push_char(s, '.');
        push_char(s, (((h / 10) % 10) as u8 + 48) as char);
        push_char(s, ((h % 10) as u8 + 48) as char);
        proof {
            assert(s@ =~= old(s)@ + f32_fixed2(bits));
        }
    }
}

/// The magnitude of a finite `f32` (given by its bits) in hundred
/// thousandths, rounded to the nearest, ties to even.
pub open spec fn f32_scaled5(bits: u32) -> nat {
    let e = (bits / 0x80_0000) % 0x100;
    let m = bits % 0x80_0000;
    let full: nat = if e == 0 { m as nat } else { (m + 0x80_0000) as nat };
    if e >= 150 {
        full * 100000 * pow2((e - 150) as nat)
    } else {
        round_half_even(full * 100000, pow2((if e == 0 { 149 } else { 150 - e }) as nat))
    }
}

/// The five decimals of `x` (taken modulo 100000), leading zeros kept.
pub open spec fn five_digits(x: nat) -> Seq<char> {
    seq![
        digit_char(((x / 10000) % 10) as int),
        digit_char(((x / 1000) % 10) as int),
        digit_char(((x / 100) % 10) as int),
        digit_char(((x / 10) % 10) as int),
        digit_char((x % 10) as int),
    ]
}

/// An `f32` (given by its bits) as text with five decimals, the way
/// `{:.5}` writes it: a `-` for a negative sign, `NaN`, `inf` and `-inf`.
pub open spec fn f32_fixed5(bits: u32) -> Seq<char> {
    let e = (bits / 0x80_0000) % 0x100;
    let m = bits % 0x80_0000;
    let neg = bits >= 0x8000_0000;
    if e == 0xff {
        if m != 0 {
            "NaN"@
        } else if neg {
            "-inf"@
        } else {
            "inf"@
        }
    } else {
        let h = f32_scaled5(bits);
        (if neg { seq!['-'] } else { Seq::empty() }) + decimal_nat(h / 100000) + seq!['.'] + five_digits(h)
    }
}

fn digit_of(x: u64) -> (c: char)
    requires
        x < 10,
    ensures
        c == digit_char(x as int),
{
    ((x as u8) + 48) as char
}

/// Appends an `f32` (given by its bits) with five decimals (see
/// `f32_fixed5`).
pub fn push_f32_fixed5(s: &mut String, bits: u32)
    ensures
        final(s)@ == old(s)@ + f32_fixed5(bits),
{
    let e = (bits / 0x80_0000) % 0x100;
    let m = bits % 0x80_0000;
    let neg = bits >= 0x8000_0000;
    if e == 0xff {
        if m != 0 {
            push_str(s, "NaN");
        } else if neg {
            push_str(s, "-inf");
        } else {
            push_str(s, "inf");
        }
        return;
    }
    if neg {
        push_char(s, '-');
    }
    let full: u64 = if e == 0 { m as u64 } else { (m as u64) + 0x80_0000 };
    proof {
        lemma2_to64();
        lemma2_to64_rest();
    }
    if e >= 150 {
        let sh = e - 150;
        let mut v: u128 = full as u128;
        let mut i: u32 = 0;
        proof {
            assert(pow2(24) * pow2(104) == pow2(128)) by {
                vstd::arithmetic::power2::lemma_pow2_adds(24, 104);
            }
            assert(pow2(64) * pow2(64) == pow2(128)) by {
                vstd::arithmetic::power2::lemma_pow2_adds(64, 64);
            }
            assert(pow2(128) == 0x1_0000_0000_0000_0000_0000_0000_0000_0000nat);
            assert(full < pow2(24));
            if sh < 104 {
                lemma_pow2_strictly_increases(sh as nat, 104);
            }
            lemma_pow2_pos(sh as nat);
            assert(full * pow2(sh as nat) < pow2(24) * pow2(104)) by (nonlinear_arith)
                requires
                    full < pow2(24),
                    pow2(sh as nat) <= pow2(104),
                    pow2(sh as nat) > 0,
            ;
        }
        while i < sh
            invariant
                i <= sh,
                sh <= 104,
                v == full * pow2(i as nat),
                full * pow2(sh as nat) < 0x1_0000_0000_0000_0000_0000_0000_0000_0000nat,
            decreases sh - i,
        {
            proof {
                vstd::arithmetic::power2::lemma_pow2_unfold((i + 1) as nat);
                if i + 1 < sh {
                    lemma_pow2_strictly_increases((i + 1) as nat, sh as nat);
                }
                assert(full * pow2((i + 1) as nat) <= full * pow2(sh as nat)) by (nonlinear_arith)
                    requires
                        pow2((i + 1) as nat) <= pow2(sh as nat),
                ;
                assert(full * pow2((i + 1) as nat) == 2 * (full * pow2(i as nat))) by (nonlinear_arith)
                    requires
                        pow2((i + 1) as nat) == 2 * pow2(i as nat),
                ;
            }
            v = v * 2;
            i = i + 1;
        }
        push_decimal_u128(s, v);
        push_str(s, ".00000");
        proof {
            let p = pow2(sh as nat);
            let h = full * 100000 * p;
            assert(h == (full * p) * 100000) by (nonlinear_arith)
                requires
                    h == full * 100000 * p,
            ;
            assert(h / 100000 == full * p) by (nonlinear_arith)
                requires
                    h == (full * p) * 100000,
            ;
            assert(h % 100000 == 0) by (nonlinear_arith)
                requires
                    h == (full * p) * 100000,
            ;
            assert(f32_scaled5(bits) == h);
            assert(h / 10000 == (full * p) * 10) by (nonlinear_arith)
                requires
                    h == (full * p) * 100000,
            ;
            assert(h / 1000 == (full * p) * 100) by (nonlinear_arith)
                requires
                    h == (full * p) * 100000,
            ;
            assert(h / 100 == (full * p) * 1000) by (nonlinear_arith)
                requires
                    h == (full * p) * 100000,
            ;
            assert(h / 10 == (full * p) * 10000) by (nonlinear_arith)
                requires
                    h == (full * p) * 100000,
            ;
            reveal_strlit(".00000");
            assert(s@ =~= old(s)@ + f32_fixed5(bits));
        }
    } else {
        let k: u32 = if e == 0 { 149 } else { 150 - e };
        let n: u64 = full * 100000;
        let h: u64 = if k >= 42 {
            proof {
                if k > 42 {
                    lemma_pow2_strictly_increases(42, k as nat);
                }
                assert(n < pow2(41));
                lemma_pow2_strictly_increases(41, 42);
                assert((n as nat) / pow2(k as nat) == 0) by (nonlinear_arith)
                    requires
                        n < pow2(41),
                        pow2(41) < pow2(42),
                        pow2(42) <= pow2(k as nat),
                ;
                assert((n as nat) % pow2(k as nat) == n) by (nonlinear_arith)
                    requires
                        n < pow2(41),
                        pow2(41) < pow2(42),
                        pow2(42) <= pow2(k as nat),
                ;
                assert(round_half_even(n as nat, pow2(k as nat)) == 0);
            }
            0
        } else {
            proof {
                vstd::bits::lemma_u64_pow2_no_overflow(k as nat);
                lemma_pow2_pos(k as nat);
                vstd::bits::lemma_u64_shl_is_mul(1, k as u64);
            }
            let d: u64 = 1u64 << (k as u64);
            assert(d == pow2(k as nat));
            let q = n / d;
            let r = n % d;
            assert(r < d);
            if 2 * r < d {
                q
            } else if 2 * r > d {
                q + 1
            } else if q % 2 == 0 {
                q
            } else {
                q + 1
            }
        };
        assert(h == f32_scaled5(bits));
        push_decimal_u64(s, h / 100000);
        push_char(s, '.');
        push_char(s, digit_of((h / 10000) % 10));
        push_char(s, digit_of((h / 1000) % 10));
        push_char(s, digit_of((h / 100) % 10));
        push_char(s, digit_of((h / 10) % 10));
        push_char(s, digit_of(h % 10));
        proof {
            assert(s@ =~= old(s)@ + f32_fixed5(bits));
        }
    }
}

/// The position of the highest set bit of `n` (0 for 0 and 1).
pub open spec fn high_bit(n: nat) -> nat
    decreases n,
{
    if n < 2 {
        0
    } else {
        1 + high_bit(n / 2)
    }
}

proof fn lemma_high_bit_bounds(n: nat)
    requires
        n >= 1,
    ensures
        pow2(high_bit(n)) <= n < pow2(high_bit(n) + 1),
    decreases n,
{
    vstd::arithmetic::power2::lemma_pow2_unfold(high_bit(n) + 1);
    if n >= 2 {
        lemma_high_bit_bounds(n / 2);
        vstd::arithmetic::power2::lemma_pow2_unfold(high_bit(n));
    } else {
        vstd::arithmetic::power2::lemma2_to64();
    }
}

proof fn lemma_high_bit_unique(n: nat, p: nat)
    requires
        pow2(p) <= n < pow2(p + 1),
    ensures
        high_bit(n) == p,
{
    lemma_pow2_pos(p);
    lemma_high_bit_bounds(n);
    let h = high_bit(n);
    if h < p {
        if h + 1 < p {
            lemma_pow2_strictly_increases(h + 1, p);
        }
    } else if h > p {
        if p + 1 < h {
            lemma_pow2_strictly_increases(p + 1, h);
        }
    }
}

/// The `f32` nearest to the integer `v` (ties to the even significand),
/// as its bits.
pub open spec fn int_to_f32_bits(v: int) -> u32 {
    if v == 0 {
        0u32
    } else {
        let mag: nat = (if v < 0 { -v } else { v }) as nat;
        let p = high_bit(mag);
        let sign: int = if v < 0 { 0x8000_0000 } else { 0 };
        let em: (int, int) = if p <= 23 {
            ((p + 127) as int, mag * pow2((23 - p) as nat) - 0x80_0000)
        } else {
            let q = round_half_even(mag, pow2((p - 23) as nat));
            if q == 0x100_0000 {
                ((p + 128) as int, 0)
            } else {
                ((p + 127) as int, q - 0x80_0000)
            }
        };
        (sign + em.0 * 0x80_0000 + em.1) as u32
    }
}

/// `v as f32`, as bits: the nearest `f32`, ties to the even significand.
pub fn i64_to_f32_bits(v: i64) -> (b: u32)
    ensures
        b == int_to_f32_bits(v as int),
{
    if v == 0 {
        return 0;
    }
    proof {
        lemma2_to64();
        lemma2_to64_rest();
    }
    let neg = v < 0;
    let mag: u64 = if v == i64::MIN {
        0x8000_0000_0000_0000u64
    } else if neg {
        (-v) as u64
    } else {
        v as u64
    };
    assert(mag as int == (if (v as int) < 0 { -(v as int) } else { v as int }));
    let mut p: u64 = 0;
    loop
        invariant
            p <= 63,
            pow2(p as nat) <= mag,
            1 <= mag <= 0x8000_0000_0000_0000u64,
        ensures
            p <= 63,
            pow2(p as nat) <= mag < pow2((p + 1) as nat),
        decreases 63 - p,
    {
        if p == 63 {
            proof {
                lemma2_to64_rest();
            }
            break;
        }
        proof {
            vstd::bits::lemma_u64_shr_is_div(mag, (p + 1) as u64);
            lemma_pow2_pos((p + 1) as nat);
        }
        if (mag >> (p + 1)) == 0 {
            proof {
                if mag >= pow2((p + 1) as nat) {
                    assert((mag as nat) / pow2((p + 1) as nat) >= 1) by (nonlinear_arith)
                        requires
                            mag >= pow2((p + 1) as nat),
                            pow2((p + 1) as nat) > 0,
                    ;
                }
            }
            break;
        }
        proof {
            assert(mag >= pow2((p + 1) as nat)) by (nonlinear_arith)
                requires
                    (mag as nat) / pow2((p + 1) as nat) != 0,
                    pow2((p + 1) as nat) > 0,
            ;
        }
        p = p + 1;
    }
    proof {
        lemma_high_bit_unique(mag as nat, p as nat);
    }
    let sign: u32 = if neg { 0x8000_0000 } else { 0 };
    let e: u32;
    let m: u32;
    if p <= 23 {
        let sh = 23 - p;
        proof {
            lemma_pow2_adds(p as nat, sh as nat);
            lemma_pow2_adds((p + 1) as nat, sh as nat);
            assert(pow2(23) == 0x80_0000 && pow2(24) == 0x100_0000);
            lemma_pow2_pos(sh as nat);
            assert(mag * pow2(sh as nat) >= pow2(p as nat) * pow2(sh as nat)) by (nonlinear_arith)
                requires
                    mag >= pow2(p as nat),
            ;
            assert(mag * pow2(sh as nat) < pow2((p + 1) as nat) * pow2(sh as nat)) by (nonlinear_arith)
                requires
                    mag < pow2((p + 1) as nat),
                    pow2(sh as nat) > 0,
            ;
            vstd::bits::lemma_u64_shl_is_mul(mag, sh);
        }
        let scaled = mag << sh;
        e = (p + 127) as u32;
        m = (scaled - 0x80_0000) as u32;
    } else {
        let sh = p - 23;
        proof {
            lemma_pow2_adds(23, sh as nat);
            lemma_pow2_adds(24, sh as nat);
            assert(pow2(23) == 0x80_0000 && pow2(24) == 0x100_0000);
            lemma_pow2_pos(sh as nat);
            vstd::bits::lemma_u64_pow2_no_overflow(sh as nat);
            vstd::bits::lemma_u64_shl_is_mul(1, sh);
        }
        let d: u64 = 1u64 << sh;
        assert(d == pow2(sh as nat));
        let q0 = mag / d;
        let r = mag % d;
        proof {
            assert(q0 >= 0x80_0000) by (nonlinear_arith)
                requires
                    mag >= 0x80_0000 * d,
                    d > 0,
                    q0 == mag / d,
            ;
            assert(q0 < 0x100_0000) by (nonlinear_arith)
                requires
                    mag < 0x100_0000 * d,
                    d > 0,
                    q0 == mag / d,
            ;
        }
        let q: u64 = if 2 * r < d {
            q0
        } else if 2 * r > d {
            q0 + 1
        } else if q0 % 2 == 0 {
            q0
        } else {
            q0 + 1
        };
        assert(q == round_half_even(mag as nat, pow2(sh as nat)));
        if q == 0x100_0000 {
            e = (p + 128) as u32;
            m = 0;
        } else {
            e = (p + 127) as u32;
            m = (q - 0x80_0000) as u32;
        }
    }
    sign + e * 0x80_0000 + m
}

/// A configuration variable: an optional name, a type and a value.
pub struct UserVariable {
    pub name: Option<String>,
    pub type_: CoreDataType,
    pub data: [u8; 16],
    pub is_system: bool,
    pub next: Option<Box<UserVariable>>,
}

impl UserVariable {
    /// The stored `char`.
    pub open spec fn stored_char(&self) -> i8 {
        self.data[0] as i8
    }

    /// The stored `int` (or lower bound of a range).
    pub open spec fn stored_int(&self) -> i32 {
        read_u32(self.data, 0) as i32
    }

    /// The stored upper bound of a range.
    pub open spec fn stored_hi(&self) -> i32 {
        read_u32(self.data, 4) as i32
    }

    /// The stored `long`.
    pub open spec fn stored_long(&self) -> i64 {
        read_u64(self.data) as i64
    }

    /// The stored bit pattern of a `float`.
    pub open spec fn stored_float_bits(&self) -> u32 {
        read_u32(self.data, 0)
    }

    /// The value as a `long`: integer types widen, a `float` is truncated
    /// (saturating), other types give 0.
    pub open spec fn long_value(&self) -> i64 {
        match self.type_ {
            CoreDataType::Char => self.stored_char() as i64,
            CoreDataType::Int => self.stored_int() as i64,
            CoreDataType::Long => self.stored_long(),
            CoreDataType::Float => f32_as_int(self.stored_float_bits(), i64::MIN as int, i64::MAX as int) as i64,
            _ => 0,
        }
    }

    /// The value as an `int`: a `long` is cut to its low 32 bits, a
    /// `float` truncated (saturating).
    pub open spec fn int_value(&self) -> i32 {
        match self.type_ {
            CoreDataType::Char => self.stored_char() as i32,
            CoreDataType::Int => self.stored_int(),
            CoreDataType::Long => self.stored_long() as i32,
            CoreDataType::Float => f32_as_int(self.stored_float_bits(), i32::MIN as int, i32::MAX as int) as i32,
            _ => 0,
        }
    }

    /// The value as a `char`: wider integers are cut to their low byte, a
    /// `float` truncated (saturating).
    pub open spec fn char_value(&self) -> i8 {
        match self.type_ {
            CoreDataType::Char => self.stored_char(),
            CoreDataType::Int => self.stored_int() as i8,
            CoreDataType::Long => self.stored_long() as i8,
            CoreDataType::Float => f32_as_int(self.stored_float_bits(), i8::MIN as int, i8::MAX as int) as i8,
            _ => 0,
        }
    }

    /// The value as a `float`, by its bits: an integer becomes the nearest
    /// float; other types give 0.
    pub open spec fn float_bits_value(&self) -> u32 {
        match self.type_ {
            CoreDataType::Char => int_to_f32_bits(self.stored_char() as int),
            CoreDataType::Int => int_to_f32_bits(self.stored_int() as int),
            CoreDataType::Long => int_to_f32_bits(self.stored_long() as int),
            CoreDataType::Float => self.stored_float_bits(),
            _ => 0,
        }
    }

    /// The value as a range: a range itself, anything else as a range of
    /// one value.
    pub open spec fn range_value(&self) -> Range {
        match self.type_ {
            CoreDataType::Range => Range { lo: self.stored_int(), hi: self.stored_hi() },
            _ => Range { lo: self.int_value(), hi: self.int_value() },
        }
    }

    /// Whether another variable follows this one.
    pub open spec fn spec_has_next(&self) -> bool {
        self.next is Some
    }

    /// A variable of invalid type with no name.
    pub fn new() -> (v: UserVariable)
        ensures
            v.name is None,
            v.type_ == CoreDataType::Invalid,
            v.data@ == Seq::new(16, |i: int| 0u8),
            !v.is_system,
            !v.spec_has_next(),
    {
        let v = UserVariable {
            name: None,
            type_: CoreDataType::Invalid,
            data: [0u8; 16],
            is_system: false,
            next: None,
        };
        assert(v.data@ =~= Seq::new(16, |i: int| 0u8));
        v
    }

    /// A named variable of type `type_` with all data bytes zero.
    pub fn with_name(name: &str, type_: CoreDataType) -> (v: UserVariable)
        ensures
            v.name matches Some(n) && n@ == name@,
            v.type_ == type_,
            v.data@ == Seq::new(16, |i: int| 0u8),
            !v.is_system,
            !v.spec_has_next(),
    {
        let mut v = UserVariable::new();
        v.name = Some(string_from(name));
        v.type_ = type_;
        v
    }

    /// The type of the value.
    pub fn get_type(&self) -> (t: CoreDataType)
        ensures
            t == self.type_,
    {
        self.type_
    }

    /// Whether the variable is one of the system's own.
    pub fn is_system_variable(&self) -> (r: bool)
        ensures
            r == self.is_system,
    {
        self.is_system
    }

    /// The raw data bytes.
    pub fn get_value(&self) -> (r: &[u8])
        ensures
            r@ == self.data@,
    {
        self.data.as_slice()
    }

    /// The name, if any.
    pub fn get_name(&self) -> (r: Option<&str>)
        ensures
            match r {
                Some(n) => self.name matches Some(m) && n@ == m@,
                None => self.name is None,
            },
    {
        match &self.name {
            Some(n) => Some(n.as_str()),
            None => None,
        }
    }

    /// Chains `next` after this variable.
    pub fn set_next(&mut self, next: UserVariable)
        ensures
            final(self).spec_has_next(),
            final(self).name == old(self).name,
            final(self).type_ == old(self).type_,
            final(self).data == old(self).data,
            final(self).is_system == old(self).is_system,
    {
        self.next = Some(Box::new(next));
    }

    /// Whether another variable is chained after this one.
    pub fn has_next(&self) -> (r: bool)
        ensures
            r == self.spec_has_next(),
    {
        self.next.is_some()
    }

    /// Unchains and returns the variable after this one.
    pub fn take_next(&mut self) -> (r: Option<Box<UserVariable>>)
        ensures
            r is Some == old(self).spec_has_next(),
            !final(self).spec_has_next(),
            final(self).name == old(self).name,
            final(self).type_ == old(self).type_,
            final(self).data == old(self).data,
            final(self).is_system == old(self).is_system,
    {
        self.next.take()
    }

    fn read_u32_at(&self, at: usize) -> (r: u32)
        requires
            at + 4 <= 16,
        ensures
            r == read_u32(self.data, at as int),
    {
        (self.data[at] as u32) | ((self.data[at + 1] as u32) << 8u32) | ((self.data[at + 2] as u32) << 16u32)
            | ((self.data[at + 3] as u32) << 24u32)
    }

    fn read_u64_at0(&self) -> (r: u64)
        ensures
            r == read_u64(self.data),
    {
        (self.read_u32_at(0) as u64) | ((self.read_u32_at(4) as u64) << 32u64)
    }

    /// The value as a `long` (`char` and `int` widen; other types give 0).
    pub fn as_i64(&self) -> (r: i64)
        ensures
            r == self.long_value(),
    {
        match self.type_ {
            CoreDataType::Char => (self.data[0] as i8) as i64,
            CoreDataType::Int => (self.read_u32_at(0) as i32) as i64,
            CoreDataType::Long => self.read_u64_at0() as i64,
            CoreDataType::Float => f32_bits_as_int(self.read_u32_at(0), i64::MIN, i64::MAX),
            _ => 0,
        }
    }

    /// The value as an `int` (a `long` is cut to its low 32 bits).
    pub fn as_i32(&self) -> (r: i32)
        ensures
            r == self.int_value(),
    {
        match self.type_ {
            CoreDataType::Char => (self.data[0] as i8) as i32,
            CoreDataType::Int => self.read_u32_at(0) as i32,
            CoreDataType::Long => (self.read_u64_at0() as i64) as i32,
            CoreDataType::Float => f32_bits_as_int(self.read_u32_at(0), i32::MIN as i64, i32::MAX as i64) as i32,
            _ => 0,
        }
    }

    /// The value as a `char` (wider integers are cut to their low byte).
    pub fn as_char(&self) -> (r: i8)
        ensures
            r == self.char_value(),
    {
        match self.type_ {
            CoreDataType::Char => self.data[0] as i8,
            CoreDataType::Int => (self.read_u32_at(0) as i32) as i8,
            CoreDataType::Long => (self.read_u64_at0() as i64) as i8,
            CoreDataType::Float => f32_bits_as_int(self.read_u32_at(0), i8::MIN as i64, i8::MAX as i64) as i8,
            _ => 0,
        }
    }

    /// The value as a `float`, by its bits (see `float_bits_value`).
    pub fn as_f32_bits(&self) -> (r: u32)
        ensures
            r == self.float_bits_value(),
    {
        match self.type_ {
            CoreDataType::Char => i64_to_f32_bits((self.data[0] as i8) as i64),
            CoreDataType::Int => i64_to_f32_bits((self.read_u32_at(0) as i32) as i64),
            CoreDataType::Long => i64_to_f32_bits(self.read_u64_at0() as i64),
            CoreDataType::Float => self.read_u32_at(0),
            _ => 0,
        }
    }

    /// The value as a range.
    pub fn as_range(&self) -> (r: Range)
        ensures
            r == self.range_value(),
    {
        match self.type_ {
            CoreDataType::Range => Range::new(self.read_u32_at(0) as i32, self.read_u32_at(4) as i32),
            _ => {
                let v = self.as_i32();
                Range::new(v, v)
            },
        }
    }

    fn write_u32_at(&mut self, at: usize, u: u32)
        requires
            at + 4 <= 16,
        ensures
            read_u32(final(self).data, at as int) == u,
            forall|k: int| 0 <= k < 16 && !(at <= k < at + 4) ==> final(self).data[k] == old(self).data[k],
            final(self).name == old(self).name,
            final(self).type_ == old(self).type_,
            final(self).is_system == old(self).is_system,
            final(self).spec_has_next() == old(self).spec_has_next(),
            final(self).next == old(self).next,
    {
        self.data[at] = (u & 0xff) as u8;
        self.data[at + 1] = ((u >> 8u32) & 0xff) as u8;
        self.data[at + 2] = ((u >> 16u32) & 0xff) as u8;
        self.data[at + 3] = ((u >> 24u32) & 0xff) as u8;
        let b0 = self.data[at];
        let b1 = self.data[at + 1];
        let b2 = self.data[at + 2];
        let b3 = self.data[at + 3];
        assert((b0 as u32) | ((b1 as u32) << 8u32) | ((b2 as u32) << 16u32) | ((b3 as u32) << 24u32) == u)
            by (bit_vector)
            requires
                b0 == (u & 0xff) as u8,
                b1 == ((u >> 8u32) & 0xff) as u8,
                b2 == ((u >> 16u32) & 0xff) as u8,
                b3 == ((u >> 24u32) & 0xff) as u8,
        ;
    }

    /// Makes the variable a `char` holding `val`.
    pub fn set_char(&mut self, val: i8)
        ensures
            final(self).type_ == CoreDataType::Char,
            final(self).stored_char() == val,
            final(self).name == old(self).name,
            final(self).is_system == old(self).is_system,
            final(self).next == old(self).next,
            forall|k: int| 1 <= k < 16 ==> #[trigger] final(self).data[k] == old(self).data[k],
    {
        self.type_ = CoreDataType::Char;
        self.data[0] = val as u8;
        assert((val as u8) as i8 == val) by (bit_vector);
    }

    /// Makes the variable an `int` holding `val`.
    pub fn set_int(&mut self, val: i32)
        ensures
            final(self).type_ == CoreDataType::Int,
            final(self).stored_int() == val,
            final(self).name == old(self).name,
            final(self).is_system == old(self).is_system,
            final(self).next == old(self).next,
            forall|k: int| 4 <= k < 16 ==> #[trigger] final(self).data[k] == old(self).data[k],
    {
        self.type_ = CoreDataType::Int;
        self.write_u32_at(0, val as u32);
        assert((val as u32) as i32 == val) by (bit_vector);
    }

    /// Makes the variable a `long` holding `val`.
    pub fn set_long(&mut self, val: i64)
        ensures
            final(self).type_ == CoreDataType::Long,
            final(self).stored_long() == val,
            final(self).name == old(self).name,
            final(self).is_system == old(self).is_system,
            final(self).next == old(self).next,
            forall|k: int| 8 <= k < 16 ==> #[trigger] final(self).data[k] == old(self).data[k],
    {
        self.type_ = CoreDataType::Long;
        let u = val as u64;
        let lo = (u & 0xffff_ffff) as u32;
        let hi = (u >> 32u64) as u32;
        self.write_u32_at(0, lo);
        self.write_u32_at(4, hi);
        assert(((lo as u64) | ((hi as u64) << 32u64)) as i64 == val) by (bit_vector)
            requires
                u == val as u64,
                lo == (u & 0xffff_ffff) as u32,
                hi == (u >> 32u64) as u32,
        ;
    }

    /// Makes the variable a `float` whose IEEE-754 bit pattern is `bits`
    /// (`set_float` of the value those bits encode).
    pub fn set_float_bits(&mut self, bits: u32)
        ensures
            final(self).type_ == CoreDataType::Float,
            final(self).stored_float_bits() == bits,
            final(self).name == old(self).name,
            final(self).is_system == old(self).is_system,
            final(self).next == old(self).next,
            forall|k: int| 4 <= k < 16 ==> #[trigger] final(self).data[k] == old(self).data[k],
    {
        self.type_ = CoreDataType::Float;
        self.write_u32_at(0, bits);
    }

    /// Makes the variable a range from `lo` to `hi`.
    pub fn set_range(&mut self, lo: i32, hi: i32)
        ensures
            final(self).type_ == CoreDataType::Range,
            final(self).stored_int() == lo,
            final(self).stored_hi() == hi,
            final(self).name == old(self).name,
            final(self).is_system == old(self).is_system,
            final(self).next == old(self).next,
            forall|k: int| 8 <= k < 16 ==> #[trigger] final(self).data[k] == old(self).data[k],
    {
        self.type_ = CoreDataType::Range;
        self.write_u32_at(0, lo as u32);
        let ghost first = self.data;
        self.write_u32_at(4, hi as u32);
        assert(read_u32(self.data, 0) == read_u32(first, 0));
        assert((lo as u32) as i32 == lo) by (bit_vector);
        assert((hi as u32) as i32 == hi) by (bit_vector);
    }
}

/// The type an operation on `own` and `src` widens to: a `char` widens to
/// an `int` or `long`, an `int` to a `long`; floats take over; everything
/// else keeps its type.
pub open spec fn raised_type(own: CoreDataType, src: CoreDataType) -> CoreDataType {
    match (own, src) {
        (CoreDataType::Char, CoreDataType::Int) => CoreDataType::Int,
        (CoreDataType::Char, CoreDataType::Long) => CoreDataType::Long,
        (CoreDataType::Char, CoreDataType::Float) => CoreDataType::Float,
        (CoreDataType::Int, CoreDataType::Long) => CoreDataType::Long,
        (CoreDataType::Int, CoreDataType::Float) => CoreDataType::Float,
        (CoreDataType::Long, CoreDataType::Float) => CoreDataType::Float,
        _ => own,
    }
}

/// Integer arithmetic as the configuration language does it: `+`, `-`,
/// `*` on the exact values, the result saturated to the target width.
pub open spec fn clamp_i8(x: int) -> i8 {
    if x > i8::MAX { i8::MAX } else if x < i8::MIN { i8::MIN } else { x as i8 }
}

pub open spec fn clamp_i32(x: int) -> i32 {
    if x > i32::MAX { i32::MAX } else if x < i32::MIN { i32::MIN } else { x as i32 }
}

/// The three operations of `add_assign`, `sub_assign` and `mul_assign`.
#[derive(Debug, Clone, Copy, PartialEq, Eq, Structural)]
pub enum ArithOp {
    Add,
    Sub,
    Mul,
}

pub open spec fn apply_op(op: ArithOp, a: int, b: int) -> int {
    match op {
        ArithOp::Add => a + b,
        ArithOp::Sub => a - b,
        ArithOp::Mul => a * b,
    }
}

fn clamp_i8_exec(x: i64) -> (r: i8)
    ensures
        r == clamp_i8(x as int),
{
    if x > 127 {
        127
    } else if x < -128 {
        -128
    } else {
        x as i8
    }
}

fn clamp_i32_exec(x: i64) -> (r: i32)
    ensures
        r == clamp_i32(x as int),
{
    if x > 2147483647 {
        2147483647
    } else if x < -2147483648 {
        -2147483648
    } else {
        x as i32
    }
}

fn apply_op_exec(op: ArithOp, a: i32, b: i32) -> (r: i64)
    ensures
        r == apply_op(op, a as int, b as int),
{
    assert((a as int) * (b as int) <= 0x4000_0000_0000_0000 && (a as int) * (b as int) >= -0x4000_0000_0000_0000)
        by (nonlinear_arith);
    match op {
        ArithOp::Add => a as i64 + b as i64,
        ArithOp::Sub => a as i64 - b as i64,
        ArithOp::Mul => (a as i64) * (b as i64),
    }
}

/// The integer `v` as the nearest `f64` (ties to the even significand),
/// itself an integer: exact below 2^53 in magnitude, otherwise rounded to
/// 53 significant bits.
pub open spec fn f64_rounded(v: int) -> int {
    let mag: nat = (if v < 0 { -v } else { v }) as nat;
    if mag < pow2(53) {
        v
    } else {
        let s = (high_bit(mag) - 52) as nat;
        let r: int = (round_half_even(mag, pow2(s)) * pow2(s)) as int;
        if v < 0 {
            -r
        } else {
            r
        }
    }
}

/// What `as i64` makes of an integral `f64`: the value, saturated.
pub open spec fn clamp_i64(x: int) -> i64 {
    if x > i64::MAX { i64::MAX } else if x < i64::MIN { i64::MIN } else { x as i64 }
}

/// A multiple of `d` at or above `q0 * d + r` (with `0 < r < d`) is at or
/// above `(q0 + 1) * d`.
proof fn lemma_round_up_within(mag: int, d: int, q0: int, r: int, m: int)
    requires
        d > 0,
        0 <= r < d,
        q0 >= 0,
        mag == q0 * d + r,
        mag <= m * d,
    ensures
        q0 * d <= m * d,
        r > 0 ==> (q0 + 1) * d <= m * d,
{
    if r > 0 {
        assert(q0 < m) by (nonlinear_arith)
            requires
                q0 * d < m * d,
                d > 0,
        ;
        assert((q0 + 1) * d <= m * d) by (nonlinear_arith)
            requires
                q0 + 1 <= m,
                d > 0,
        ;
    }
}

/// `v as f64`, given back as an integer: see `f64_rounded`.  A magnitude
/// at most 2^126 (or 2^63) stays within it.
fn f64_round_int(v: i128) -> (r: i128)
    requires
        -0x4000_0000_0000_0000_0000_0000_0000_0000 <= v <= 0x4000_0000_0000_0000_0000_0000_0000_0000,
    ensures
        r == f64_rounded(v as int),
        -0x4000_0000_0000_0000_0000_0000_0000_0000 <= r <= 0x4000_0000_0000_0000_0000_0000_0000_0000,
        -0x8000_0000_0000_0000 <= v <= 0x8000_0000_0000_0000 ==> -0x8000_0000_0000_0000 <= r
            <= 0x8000_0000_0000_0000,
{
    proof {
        lemma2_to64();
        lemma2_to64_rest();
    }
    let neg = v < 0;
    let mag: u128 = if neg { (-v) as u128 } else { v as u128 };
    if mag < 0x20_0000_0000_0000 {
        return v;
    }
    let mut p: u32 = 53;
    let mut pw: u128 = 0x20_0000_0000_0000;
    let mut d: u128 = 2;
    proof {
        lemma_pow2_adds(63, 63);
    }
    loop
        invariant
            53 <= p <= 126,
            pw == pow2(p as nat),
            d == pow2((p - 52) as nat),
            d < pw <= mag,
            mag <= 0x4000_0000_0000_0000_0000_0000_0000_0000,
            pow2(126) == 0x4000_0000_0000_0000_0000_0000_0000_0000,
        ensures
            53 <= p <= 126,
            pw == pow2(p as nat),
            d == pow2((p - 52) as nat),
            d < pw <= mag < 2 * pw,
        decreases 126 - p,
    {
        if p == 126 || mag / 2 < pw {
            break;
        }
        proof {
            vstd::arithmetic::power2::lemma_pow2_unfold((p + 1) as nat);
            vstd::arithmetic::power2::lemma_pow2_unfold((p - 51) as nat);
            if p + 1 < 126 {
                lemma_pow2_strictly_increases((p + 1) as nat, 126);
            }
        }
        pw = pw * 2;
        d = d * 2;
        p = p + 1;
    }
    let ghost s: nat = (p - 52) as nat;
    proof {
        vstd::arithmetic::power2::lemma_pow2_unfold((p + 1) as nat);
        lemma_high_bit_unique(mag as nat, p as nat);
        lemma_pow2_pos(s);
    }
    let q0 = mag / d;
    let rem = mag % d;
    let q: u128 = if 2 * rem < d {
        q0
    } else if 2 * rem > d {
        q0 + 1
    } else if q0 % 2 == 0 {
        q0
    } else {
        q0 + 1
    };
    assert(q == round_half_even(mag as nat, d as nat));
    proof {
        vstd::arithmetic::div_mod::lemma_fundamental_div_mod(mag as int, d as int);
        vstd::arithmetic::mul::lemma_mul_is_commutative(d as int, q0 as int);
        lemma_pow2_adds((126 - s) as nat, s);
        lemma_round_up_within(mag as int, d as int, q0 as int, rem as int, pow2((126 - s) as nat) as int);
        if mag <= 0x8000_0000_0000_0000 {
            if p > 63 {
                lemma_pow2_strictly_increases(63, p as nat);
            }
            lemma_pow2_adds((63 - s) as nat, s);
            lemma_round_up_within(mag as int, d as int, q0 as int, rem as int, pow2((63 - s) as nat) as int);
        }
    }
    let res: u128 = q * d;
    if neg {
        -(res as i128)
    } else {
        res as i128
    }
}

fn clamp_i64_exec(x: i128) -> (r: i64)
    ensures
        r == clamp_i64(x as int),
{
    if x > 0x7fff_ffff_ffff_ffff {
        i64::MAX
    } else if x < -0x8000_0000_0000_0000 {
        i64::MIN
    } else {
        x as i64
    }
}

/// The types whose arithmetic goes by integers: all but `float`.
pub open spec fn integer_arith_type(t: CoreDataType) -> bool {
    t != CoreDataType::Float
}

impl UserVariable {
    /// Widens this variable's type to hold `src`'s kind of value, keeping
    /// its value (a value that becomes a `float` is rounded to the nearest
    /// one).
    pub fn raise_precision(&mut self, src: &UserVariable)
        ensures
            final(self).type_ == raised_type(old(self).type_, src.type_),
            final(self).type_ != old(self).type_ && final(self).type_ != CoreDataType::Float
                ==> final(self).long_value() == old(self).long_value(),
            final(self).type_ != old(self).type_ && final(self).type_ == CoreDataType::Float
                ==> final(self).stored_float_bits() == int_to_f32_bits(old(self).long_value() as int),
            final(self).type_ == old(self).type_ ==> final(self).data == old(self).data,
            final(self).name == old(self).name,
            final(self).is_system == old(self).is_system,
    {
        let new_type = match (self.type_, src.type_) {
            (CoreDataType::Char, CoreDataType::Int) => CoreDataType::Int,
            (CoreDataType::Char, CoreDataType::Long) => CoreDataType::Long,
            (CoreDataType::Char, CoreDataType::Float) => CoreDataType::Float,
            (CoreDataType::Int, CoreDataType::Long) => CoreDataType::Long,
            (CoreDataType::Int, CoreDataType::Float) => CoreDataType::Float,
            (CoreDataType::Long, CoreDataType::Float) => CoreDataType::Float,
            _ => return,
        };
        let old_val = self.as_i64();
        match new_type {
            CoreDataType::Int => {
                self.set_int(old_val as i32);
            },
            CoreDataType::Float => {
                self.set_float_bits(i64_to_f32_bits(old_val));
            },
            _ => {
                self.set_long(old_val);
            },
        }
    }

    /// `self op= src` on integer values: both are widened to the wider
    /// type; `char` and `int` results saturate; a `long` is computed as
    /// an `f64`; ranges work bound by bound.
    fn apply_arithmetic(&mut self, src: &UserVariable, op: ArithOp)
        requires
            integer_arith_type(old(self).type_),
            integer_arith_type(src.type_),
        ensures
            arith_result(*old(self), *src, op, *final(self)),
    {
        self.raise_precision(src);
        match self.type_ {
            CoreDataType::Char => {
                let v = apply_op_exec(op, self.as_char() as i32, src.as_char() as i32);
                self.set_char(clamp_i8_exec(v));
            },
            CoreDataType::Int => {
                let v = apply_op_exec(op, self.as_i32(), src.as_i32());
                self.set_int(clamp_i32_exec(v));
            },
            CoreDataType::Long => {
                let a = f64_round_int(self.as_i64() as i128);
                let b = f64_round_int(src.as_i64() as i128);
                let x: i128 = match op {
                    ArithOp::Add => a + b,
                    ArithOp::Sub => a - b,
                    ArithOp::Mul => {
                        assert(-0x4000_0000_0000_0000_0000_0000_0000_0000 <= a * b
                            <= 0x4000_0000_0000_0000_0000_0000_0000_0000) by (nonlinear_arith)
                            requires
                                -0x8000_0000_0000_0000 <= a <= 0x8000_0000_0000_0000,
                                -0x8000_0000_0000_0000 <= b <= 0x8000_0000_0000_0000,
                        ;
                        a * b
                    },
                };
                let y = f64_round_int(x);
                self.set_long(clamp_i64_exec(y));
            },
            CoreDataType::Range => {
                let a = self.as_range();
                let b = src.as_range();
                let lo = apply_op_exec(op, a.lo, b.lo);
                let hi = apply_op_exec(op, a.hi, b.hi);
                self.set_range(clamp_i32_exec(lo), clamp_i32_exec(hi));
            },
            _ => {},
        }
    }

    /// `self += src`.
    pub fn add_assign(&mut self, src: &UserVariable)
        requires
            integer_arith_type(old(self).type_),
            integer_arith_type(src.type_),
        ensures
            arith_result(*old(self), *src, ArithOp::Add, *final(self)),
    {
        self.apply_arithmetic(src, ArithOp::Add);
    }

    /// `self -= src`.
    pub fn sub_assign(&mut self, src: &UserVariable)
        requires
            integer_arith_type(old(self).type_),
            integer_arith_type(src.type_),
        ensures
            arith_result(*old(self), *src, ArithOp::Sub, *final(self)),
    {
        self.apply_arithmetic(src, ArithOp::Sub);
    }

    /// `self *= src`.
    pub fn mul_assign(&mut self, src: &UserVariable)
        requires
            integer_arith_type(old(self).type_),
            integer_arith_type(src.type_),
        ensures
            arith_result(*old(self), *src, ArithOp::Mul, *final(self)),
    {
        self.apply_arithmetic(src, ArithOp::Mul);
    }

    /// `self /= src` on a range: each bound divided (toward zero) by the
    /// matching bound of `src`, where that is not zero.
    pub fn div_assign(&mut self, src: &UserVariable)
        requires
            old(self).type_ == CoreDataType::Range,
            !(old(self).stored_int() == i32::MIN && src.range_value().lo == -1),
            !(old(self).stored_hi() == i32::MIN && src.range_value().hi == -1),
        ensures
            final(self).type_ == CoreDataType::Range,
            final(self).stored_int() == (if src.range_value().lo != 0 {
                trunc_div(old(self).stored_int() as int, src.range_value().lo as int) as i32
            } else {
                old(self).stored_int()
            }),
            final(self).stored_hi() == (if src.range_value().hi != 0 {
                trunc_div(old(self).stored_hi() as int, src.range_value().hi as int) as i32
            } else {
                old(self).stored_hi()
            }),
            final(self).name == old(self).name,
    {
        let r = src.as_range();
        let own = self.as_range();
        let lo = if r.lo != 0 {
            proof { lemma_trunc_div_fits(own.lo, r.lo); }
            let q = own.lo.checked_div(r.lo);
            assert(q is Some);
            q.unwrap()
        } else {
            own.lo
        };
        let hi = if r.hi != 0 {
            proof { lemma_trunc_div_fits(own.hi, r.hi); }
            let q = own.hi.checked_div(r.hi);
            assert(q is Some);
            q.unwrap()
        } else {
            own.hi
        };
        self.set_range(lo, hi);
    }

    /// The value as text: integers in decimal, a `float` with two
    /// decimals, a range as `lo>hi`, the other types by name.
    pub fn print(&self) -> (s: String)
        ensures
            s@ == printed(*self),
    {
        match self.type_ {
            CoreDataType::Char => {
                let mut s = String::new();
                push_decimal_i64(&mut s, self.as_char() as i64);
                s
            },
            CoreDataType::Int => {
                let mut s = String::new();
                push_decimal_i64(&mut s, self.as_i32() as i64);
                s
            },
            CoreDataType::Long => {
                let mut s = String::new();
                push_decimal_i64(&mut s, self.as_i64());
                s
            },
            CoreDataType::Float => {
                let mut s = String::new();
                push_f32_fixed2(&mut s, self.read_u32_at(0));
                s
            },
            CoreDataType::Range => {
                let r = self.as_range();
                let mut s = String::new();
                push_decimal_i64(&mut s, r.lo as i64);
                push_str(&mut s, ">");
                push_decimal_i64(&mut s, r.hi as i64);
                s
            },
            CoreDataType::Variable => string_from("(variable)"),
            CoreDataType::VariableRef => string_from("(variableref)"),
            _ => string_from("(invalid)"),
        }
    }
}

/// Division truncating toward zero.
pub open spec fn trunc_div(a: int, b: int) -> int {
    crate::core_dsp::trunc_div(a, b)
}

proof fn lemma_div_le(x: int, d: int)
    requires
        x >= 0,
        d >= 1,
    ensures
        0 <= x / d <= x,
        d >= 2 ==> x / d <= x / 2,
{
    vstd::arithmetic::div_mod::lemma_div_is_ordered_by_denominator(x, 1, d);
    vstd::arithmetic::div_mod::lemma_div_pos_is_pos(x, d);
    if d >= 2 {
        vstd::arithmetic::div_mod::lemma_div_is_ordered_by_denominator(x, 2, d);
    }
}

proof fn lemma_trunc_div_fits(a: i32, b: i32)
    requires
        b != 0,
        !(a == i32::MIN && b == -1),
    ensures
        i32::MIN <= trunc_div(a as int, b as int) <= i32::MAX,
{
    let x = a as int;
    let d = b as int;
    if x > 0 && d > 0 {
        lemma_div_le(x, d);
    } else if x < 0 && d < 0 {
        lemma_div_le(-x, -d);
        assert((x * -1) == -x && (d * -1) == -d);
    } else if x < 0 {
        lemma_div_le(-x, d);
        assert((x * -1) == -x);
    } else if x > 0 {
        lemma_div_le(x, -d);
        assert((d * -1) == -d);
    }
}

/// What `print` shows of a variable.
pub open spec fn printed(v: UserVariable) -> Seq<char> {
    match v.type_ {
        CoreDataType::Char => decimal_int(v.stored_char() as int),
        CoreDataType::Int => decimal_int(v.stored_int() as int),
        CoreDataType::Long => decimal_int(v.stored_long() as int),
        CoreDataType::Float => f32_fixed2(v.stored_float_bits()),
        CoreDataType::Range => decimal_int(v.stored_int() as int) + ">"@ + decimal_int(v.stored_hi() as int),
        CoreDataType::Variable => "(variable)"@,
        CoreDataType::VariableRef => "(variableref)"@,
        _ => "(invalid)"@,
    }
}

/// The outcome of `own op= src` on integer values.  `char`, `int` and
/// ranges take the exact result, saturated (below 2^53 the `f64` through
/// which the operation goes is exact, and above it the result saturates
/// either way); a `long` takes each operand and the result as the nearest
/// `f64`, then saturates.
pub open spec fn arith_result(own: UserVariable, src: UserVariable, op: ArithOp, out: UserVariable) -> bool {
    let t = raised_type(own.type_, src.type_);
    &&& out.name == own.name
    &&& out.is_system == own.is_system
    &&& out.type_ == t
    &&& match t {
        CoreDataType::Char => out.stored_char() == clamp_i8(
            apply_op(op, own.char_value() as int, src.char_value() as int),
        ),
        CoreDataType::Int => out.stored_int() == clamp_i32(
            apply_op(op, own.int_value() as int, src.int_value() as int),
        ),
        CoreDataType::Long => out.stored_long() == clamp_i64(
            f64_rounded(
                apply_op(op, f64_rounded(own.long_value() as int), f64_rounded(src.long_value() as int)),
            ),
        ),
        CoreDataType::Range => out.stored_int() == clamp_i32(
            apply_op(op, own.stored_int() as int, src.range_value().lo as int),
        ) && out.stored_hi() == clamp_i32(apply_op(op, own.stored_hi() as int, src.range_value().hi as int)),
        _ => out.data == own.data,
    }
}

/// The registry of realtime reader and writer threads.
pub struct RTRWThreads {
    ids: Vec<u64>,
}

impl RTRWThreads {
    /// The registered thread ids.
    pub closed spec fn spec_ids(&self) -> Seq<u64> {
        self.ids@
    }

    /// An empty registry.
    pub fn init_all() -> (r: RTRWThreads)
        ensures
            r.spec_ids() == Seq::<u64>::empty(),
    {
        RTRWThreads { ids: Vec::new() }
    }

    /// Registers the thread `id` and returns the number of registered
    /// threads.
    pub fn register_reader_or_writer(&mut self, id: u64) -> (count: usize)
        requires
            old(self).spec_ids().len() < MAX_RW_THREADS,
        ensures
            final(self).spec_ids() == old(self).spec_ids().push(id),
            count == final(self).spec_ids().len(),
    {
        self.ids.push(id);
        self.ids.len()
    }

    /// The number of registered threads.
    pub fn get_num_threads(&self) -> (n: usize)
        ensures
            n == self.spec_ids().len(),
    {
        self.ids.len()
    }

    /// The registered thread ids, in registration order.
    pub fn get_thread_ids(&self) -> (ids: Vec<u64>)
        ensures
            ids@ == self.spec_ids(),
    {
        self.ids.clone()
    }

    /// Forgets every registered thread.
    pub fn close_all(&mut self)
        ensures
            final(self).spec_ids() == Seq::<u64>::empty(),
    {
        self.ids.clear();
    }
}

} // verus!

verus! {

/// Law: subtracting one `int` variable from another leaves the first
/// holding the difference, the first minus the second, when it fits.
pub proof fn law_int_sub_is_difference(own: UserVariable, src: UserVariable, out: UserVariable)
    requires
        own.type_ == CoreDataType::Int,
        src.type_ == CoreDataType::Int,
        i32::MIN <= own.stored_int() - src.stored_int() <= i32::MAX,
        arith_result(own, src, ArithOp::Sub, out),
    ensures
        out.type_ == CoreDataType::Int,
        out.stored_int() == own.stored_int() - src.stored_int(),
{
}

/// Law: the same for two `char` variables.
pub proof fn law_char_sub_is_difference(own: UserVariable, src: UserVariable, out: UserVariable)
    requires
        own.type_ == CoreDataType::Char,
        src.type_ == CoreDataType::Char,
        i8::MIN <= own.stored_char() - src.stored_char() <= i8::MAX,
        arith_result(own, src, ArithOp::Sub, out),
    ensures
        out.type_ == CoreDataType::Char,
        out.stored_char() == own.stored_char() - src.stored_char(),
{
}

/// Law: the same for two `long` variables whose values and difference
/// are below 2^53 in magnitude.
pub proof fn law_long_sub_is_difference(own: UserVariable, src: UserVariable, out: UserVariable)
    requires
        own.type_ == CoreDataType::Long,
        src.type_ == CoreDataType::Long,
        -0x20_0000_0000_0000 < own.stored_long() < 0x20_0000_0000_0000,
        -0x20_0000_0000_0000 < src.stored_long() < 0x20_0000_0000_0000,
        -0x20_0000_0000_0000 < own.stored_long() - src.stored_long() < 0x20_0000_0000_0000,
        arith_result(own, src, ArithOp::Sub, out),
    ensures
        out.type_ == CoreDataType::Long,
        out.stored_long() == own.stored_long() - src.stored_long(),
{
    vstd::arithmetic::power2::lemma2_to64_rest();
}

/// Law: subtracting a range from a range subtracts the bounds, lower from
/// lower and upper from upper, when they fit.
pub proof fn law_range_sub_is_difference(own: UserVariable, src: UserVariable, out: UserVariable)
    requires
        own.type_ == CoreDataType::Range,
        src.type_ == CoreDataType::Range,
        i32::MIN <= own.stored_int() - src.stored_int() <= i32::MAX,
        i32::MIN <= own.stored_hi() - src.stored_hi() <= i32::MAX,
        arith_result(own, src, ArithOp::Sub, out),
    ensures
        out.type_ == CoreDataType::Range,
        out.stored_int() == own.stored_int() - src.stored_int(),
        out.stored_hi() == own.stored_hi() - src.stored_hi(),
{
}

/// Law: an `int` minus a `char` is an `int` holding the difference.
pub proof fn law_int_minus_char_is_difference(own: UserVariable, src: UserVariable, out: UserVariable)
    requires
        own.type_ == CoreDataType::Int,
        src.type_ == CoreDataType::Char,
        i32::MIN <= own.stored_int() - src.stored_char() <= i32::MAX,
        arith_result(own, src, ArithOp::Sub, out),
    ensures
        out.type_ == CoreDataType::Int,
        out.stored_int() == own.stored_int() - src.stored_char(),
{
}

/// Law: a `char` minus an `int` becomes an `int` holding the difference.
pub proof fn law_char_minus_int_is_difference(own: UserVariable, src: UserVariable, out: UserVariable)
    requires
        own.type_ == CoreDataType::Char,
        src.type_ == CoreDataType::Int,
        i32::MIN <= own.stored_char() - src.stored_int() <= i32::MAX,
        arith_result(own, src, ArithOp::Sub, out),
    ensures
        out.type_ == CoreDataType::Int,
        out.stored_int() == own.stored_char() - src.stored_int(),
{
}

} // verus!

verus! {

/// Law: adding two `int` variables leaves the first holding the sum, when
/// it fits.
pub proof fn law_int_add_is_sum(own: UserVariable, src: UserVariable, out: UserVariable)
    requires
        own.type_ == CoreDataType::Int,
        src.type_ == CoreDataType::Int,
        i32::MIN <= own.stored_int() + src.stored_int() <= i32::MAX,
        arith_result(own, src, ArithOp::Add, out),
    ensures
        out.type_ == CoreDataType::Int,
        out.stored_int() == own.stored_int() + src.stored_int(),
{
}

/// Law: multiplying two `int` variables leaves the first holding the
/// product, when it fits.
pub proof fn law_int_mul_is_product(own: UserVariable, src: UserVariable, out: UserVariable)
    requires
        own.type_ == CoreDataType::Int,
        src.type_ == CoreDataType::Int,
        i32::MIN <= own.stored_int() * src.stored_int() <= i32::MAX,
        arith_result(own, src, ArithOp::Mul, out),
    ensures
        out.type_ == CoreDataType::Int,
        out.stored_int() == own.stored_int() * src.stored_int(),
{
}

/// Law: the result of arithmetic on two `int` variables saturates: above
/// the largest `int` it is the largest, below the smallest the smallest.
pub proof fn law_int_arithmetic_saturates(own: UserVariable, src: UserVariable, op: ArithOp, out: UserVariable)
    requires
        own.type_ == CoreDataType::Int,
        src.type_ == CoreDataType::Int,
        arith_result(own, src, op, out),
    ensures
        apply_op(op, own.stored_int() as int, src.stored_int() as int) > i32::MAX ==> out.stored_int() == i32::MAX,
        apply_op(op, own.stored_int() as int, src.stored_int() as int) < i32::MIN ==> out.stored_int() == i32::MIN,
{
}

/// Law: adding two `char` variables leaves the first holding the sum,
/// when it fits.
pub proof fn law_char_add_is_sum(own: UserVariable, src: UserVariable, out: UserVariable)
    requires
        own.type_ == CoreDataType::Char,
        src.type_ == CoreDataType::Char,
        i8::MIN <= own.stored_char() + src.stored_char() <= i8::MAX,
        arith_result(own, src, ArithOp::Add, out),
    ensures
        out.type_ == CoreDataType::Char,
        out.stored_char() == own.stored_char() + src.stored_char(),
{
}

/// Law: multiplying two `char` variables leaves the first holding the
/// product, when it fits.
pub proof fn law_char_mul_is_product(own: UserVariable, src: UserVariable, out: UserVariable)
    requires
        own.type_ == CoreDataType::Char,
        src.type_ == CoreDataType::Char,
        i8::MIN <= own.stored_char() * src.stored_char() <= i8::MAX,
        arith_result(own, src, ArithOp::Mul, out),
    ensures
        out.type_ == CoreDataType::Char,
        out.stored_char() == own.stored_char() * src.stored_char(),
{
}

/// Law: adding a range to a range adds the bounds, lower to lower and
/// upper to upper, when they fit; adding an `int` adds it to both bounds.
pub proof fn law_range_add_is_sum(own: UserVariable, src: UserVariable, out: UserVariable)
    requires
        own.type_ == CoreDataType::Range,
        src.type_ == CoreDataType::Range || src.type_ == CoreDataType::Int,
        i32::MIN <= own.stored_int() + src.range_value().lo <= i32::MAX,
        i32::MIN <= own.stored_hi() + src.range_value().hi <= i32::MAX,
        arith_result(own, src, ArithOp::Add, out),
    ensures
        out.type_ == CoreDataType::Range,
        out.stored_int() == own.stored_int() + (if src.type_ == CoreDataType::Range {
            src.stored_int()
        } else {
            src.stored_int()
        }),
        out.stored_hi() == own.stored_hi() + (if src.type_ == CoreDataType::Range {
            src.stored_hi()
        } else {
            src.stored_int()
        }),
{
}

/// Law: an operation keeps the first variable's name and whether it is a
/// system variable.
pub proof fn law_arithmetic_keeps_name(own: UserVariable, src: UserVariable, op: ArithOp, out: UserVariable)
    requires
        arith_result(own, src, op, out),
    ensures
        out.name == own.name,
        out.is_system == own.is_system,
{
}

} // verus!

verus! {

/// Law: an `int`, `char` or `long` variable prints as decimal text that
/// reads back as its value.
pub proof fn law_printed_integer_reads_back(v: UserVariable)
    ensures
        v.type_ == CoreDataType::Int ==> crate::text::parse_i32_spec(printed(v)) == Some(v.stored_int()),
        v.type_ == CoreDataType::Char ==> crate::text::parse_i64_spec(printed(v)) == Some(v.stored_char() as i64),
        v.type_ == CoreDataType::Long ==> crate::text::parse_i64_spec(printed(v)) == Some(v.stored_long()),
{
    crate::text::lemma_decimal_int_parses(v.stored_int() as int);
    crate::text::lemma_decimal_int_parses(v.stored_char() as int);
    crate::text::lemma_decimal_int_parses(v.stored_long() as int);
}

/// Law: a range variable prints as its lower bound, `>`, and its upper
/// bound: the text before the first `>` reads back as the lower bound and
/// the text after it as the upper bound.
pub proof fn law_printed_range_reads_back(v: UserVariable)
    requires
        v.type_ == CoreDataType::Range,
    ensures
        exists|k: int|
            #![trigger printed(v)[k]]
            0 <= k < printed(v).len() && printed(v)[k] == '>' && (forall|j: int| 0 <= j < k ==> printed(v)[j] != '>')
                && crate::text::parse_i32_spec(printed(v).take(k)) == Some(v.stored_int())
                && crate::text::parse_i32_spec(printed(v).skip(k + 1)) == Some(v.stored_hi()),
{
    let lo = crate::text::decimal_int(v.stored_int() as int);
    let hi = crate::text::decimal_int(v.stored_hi() as int);
    crate::text::lemma_decimal_int_parses(v.stored_int() as int);
    crate::text::lemma_decimal_int_parses(v.stored_hi() as int);
    reveal_strlit(">");
    let t = printed(v);
    assert(t == lo + ">"@ + hi);
    let k = lo.len() as int;
    assert(t.take(k) =~= lo);
    assert(t.skip(k + 1) =~= hi);
    assert(t[k] == '>');
    assert forall|j: int| 0 <= j < k implies t[j] != '>' by {
        assert(t[j] == lo[j]);
        assert(crate::text::is_decimal_digit(lo[j]) || lo[j] == '-');
    }
}

} // verus!
