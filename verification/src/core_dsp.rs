use vstd::prelude::*;
use vstd::arithmetic::div_mod::lemma_fundamental_div_mod;

verus! {

/// Remainder of Rust's integer division, which truncates toward zero:
/// the result has the sign of the dividend.
pub open spec fn trunc_rem(a: int, b: int) -> int {
    if a >= 0 {
        if b >= 0 { a % b } else { a % (-b) }
    } else {
        if b >= 0 { -((-a) % b) } else { -((-a) % (-b)) }
    }
}

/// Quotient of Rust's integer division, truncated toward zero.
pub open spec fn trunc_div(a: int, b: int) -> int {
    if a == 0 {
        0
    } else if a > 0 && b > 0 {
        a / b
    } else if a < 0 && b < 0 {
        (a * -1) / (b * -1)
    } else if a < 0 {
        ((a * -1) / b) * -1
    } else {
        (a / (b * -1)) * -1
    }
}

/// `d` divides `x`.
pub open spec fn divides(d: int, x: int) -> bool {
    exists|k: int| x == #[trigger] (k * d)
}

/// Euclid's algorithm as `math_gcd` runs it, with Rust's remainder.
pub open spec fn gcd_spec(a: int, b: int) -> int
    decreases (if b >= 0 { b } else { -b }),
{
    if b == 0 {
        a
    } else {
        proof { lemma_trunc_rem_smaller(a, b); }
        gcd_spec(b, trunc_rem(a, b))
    }
}

/// No step of Euclid's algorithm on `(a, b)` computes `i32::MIN % -1`,
/// the one remainder that Rust refuses.
pub open spec fn gcd_steps_defined(a: int, b: int) -> bool
    decreases (if b >= 0 { b } else { -b }),
{
    if b == 0 {
        true
    } else {
        proof { lemma_trunc_rem_smaller(a, b); }
        !(a == i32::MIN && b == -1) && gcd_steps_defined(b, trunc_rem(a, b))
    }
}

pub proof fn lemma_trunc_rem_smaller(a: int, b: int)
    requires
        b != 0,
    ensures
        (if trunc_rem(a, b) >= 0 { trunc_rem(a, b) } else { -trunc_rem(a, b) })
            < (if b >= 0 { b } else { -b }),
        a >= 0 ==> trunc_rem(a, b) >= 0,
        a < 0 ==> trunc_rem(a, b) <= 0,
{
}

proof fn lemma_trunc_div_mod(a: int, b: int)
    requires
        b != 0,
    ensures
        a == trunc_div(a, b) * b + trunc_rem(a, b),
{
    if a >= 0 {
        if b >= 0 {
            lemma_fundamental_div_mod(a, b);
            assert(a == (a / b) * b + a % b) by (nonlinear_arith)
                requires a == b * (a / b) + a % b;
        } else {
            lemma_fundamental_div_mod(a, -b);
            assert(a == (-(a / (-b))) * b + a % (-b)) by (nonlinear_arith)
                requires a == (-b) * (a / (-b)) + a % (-b);
        }
    } else {
        if b >= 0 {
            lemma_fundamental_div_mod(-a, b);
            assert(a == (-((-a) / b)) * b + -((-a) % b)) by (nonlinear_arith)
                requires -a == b * ((-a) / b) + (-a) % b;
        } else {
            lemma_fundamental_div_mod(-a, -b);
            assert(a == ((-a) / (-b)) * b + -((-a) % (-b))) by (nonlinear_arith)
                requires -a == (-b) * ((-a) / (-b)) + (-a) % (-b);
        }
    }
}

/// Greatest common divisor, computed by Euclid's algorithm with Rust's
/// truncating remainder.  The sign of the result follows the algorithm.
pub fn math_gcd(a: i32, b: i32) -> (r: i32)
    requires
        gcd_steps_defined(a as int, b as int),
    ensures
        r == gcd_spec(a as int, b as int),
    decreases (if b >= 0 { b as int } else { -(b as int) }),
{
    if b == 0 {
        a
    } else {
        proof { lemma_trunc_rem_smaller(a as int, b as int); }
        let rem = match a.checked_rem(b) {
            Some(rem) => rem,
            None => 0,
        };
        assert(rem == trunc_rem(a as int, b as int)) by {
            assert((a as int) * -1 == -(a as int));
            assert((b as int) * -1 == -(b as int));
        }
        math_gcd(b, rem)
    }
}

/// Least common multiple as `a * b / gcd(a, b)`.
pub open spec fn lcm_spec(a: int, b: int) -> int {
    trunc_div(a * b, gcd_spec(a, b))
}

pub fn math_lcm(a: i32, b: i32) -> (r: i32)
    requires
        gcd_steps_defined(a as int, b as int),
        gcd_spec(a as int, b as int) != 0,
        i32::MIN <= a * b <= i32::MAX,
        i32::MIN <= lcm_spec(a as int, b as int) <= i32::MAX,
    ensures
        r == lcm_spec(a as int, b as int),
{
    let g = math_gcd(a, b);
    let p = a * b;
    let qo = p.checked_div(g);
    assert(p as int == a * b);
    assert(g as int == gcd_spec(a as int, b as int));
    assert(trunc_div(p as int, g as int) == lcm_spec(a as int, b as int));
    assert(qo is Some);
    let q = match qo {
        Some(q) => q,
        None => 0,
    };
    q
}

/// Law: what `math_gcd` returns divides both arguments, and every common
/// divisor of the arguments divides it.
pub proof fn lemma_gcd_is_greatest_common_divisor(a: int, b: int, d: int)
    ensures
        divides(gcd_spec(a, b), a),
        divides(gcd_spec(a, b), b),
        divides(d, a) && divides(d, b) ==> divides(d, gcd_spec(a, b)),
    decreases (if b >= 0 { b } else { -b }),
{
    if b == 0 {
        let g = gcd_spec(a, b);
        assert(a == 1 * g);
        assert(b == 0 * g);
    } else {
        lemma_trunc_rem_smaller(a, b);
        let r = trunc_rem(a, b);
        let q = trunc_div(a, b);
        lemma_trunc_div_mod(a, b);
        lemma_gcd_is_greatest_common_divisor(b, r, d);
        let g = gcd_spec(b, r);
        assert(gcd_spec(a, b) == g);
        let kb = choose|k: int| b == #[trigger] (k * g);
        let kr = choose|k: int| r == #[trigger] (k * g);
        assert(a == (q * kb + kr) * g) by (nonlinear_arith)
            requires a == q * b + r, b == kb * g, r == kr * g;
        assert(divides(g, a));
        if divides(d, a) && divides(d, b) {
            let ka = choose|k: int| a == #[trigger] (k * d);
            let kb2 = choose|k: int| b == #[trigger] (k * d);
            assert(r == (ka - q * kb2) * d) by (nonlinear_arith)
                requires a == q * b + r, a == ka * d, b == kb2 * d;
            assert(divides(d, r));
        }
    }
}

/// A number of audio frames.
pub type NFrames = u32;

/// The loop pulse: its length and the position within it, whether it has
/// wrapped since last asked, whether it is stopped, and the metronome
/// (its volume by the bits of the `f32`).
pub struct Pulse {
    pub len: NFrames,
    pub curpos: NFrames,
    pub wrapped: bool,
    pub stopped: bool,
    pub metro_active: bool,
    pub metro_volume_bits: u32,
}

impl Pulse {
    pub const METRONOME_HIT_LEN: NFrames = 800;
    pub const METRONOME_TONE_LEN: NFrames = 4400;

    /// A running pulse of `len` frames at `startpos`, not wrapped, with the
    /// metronome off at volume 0.1.
    pub fn new(len: NFrames, startpos: NFrames) -> (p: Pulse)
        ensures
            p.len == len,
            p.curpos == startpos,
            !p.wrapped,
            !p.stopped,
            !p.metro_active,
            p.metro_volume_bits == 0x3dcc_cccd,
    {
        Pulse { len, curpos: startpos, wrapped: false, stopped: false, metro_active: false, metro_volume_bits: 0x3dcc_cccd }
    }

    /// Moves to the end of the pulse.
    pub fn wrap(&mut self)
        ensures
            *final(self) == (Pulse { curpos: old(self).len, ..*old(self) }),
    {
        self.curpos = self.len;
    }

    /// Moves to position `p`.
    pub fn set_pos(&mut self, p: NFrames)
        ensures
            *final(self) == (Pulse { curpos: p, ..*old(self) }),
    {
        self.curpos = p;
    }

    /// Advances a running pulse by `n` frames; passing its end wraps the
    /// position around and records that it wrapped.  A stopped pulse
    /// stays where it is.
    pub fn process_clock(&mut self, n: NFrames)
        requires
            !old(self).stopped ==> old(self).len > 0 && old(self).curpos + n <= NFrames::MAX,
        ensures
            old(self).stopped ==> *final(self) == *old(self),
            !old(self).stopped && old(self).curpos + n < old(self).len ==> *final(self) == (Pulse {
                curpos: (old(self).curpos + n) as u32,
                ..*old(self)
            }),
            !old(self).stopped && old(self).curpos + n >= old(self).len ==> *final(self) == (Pulse {
                curpos: ((old(self).curpos + n) % (old(self).len as int)) as u32,
                wrapped: true,
                ..*old(self)
            }),
    {
        if !self.stopped {
            self.curpos = self.curpos + n;
            if self.curpos >= self.len {
                self.curpos = self.curpos % self.len;
                self.wrapped = true;
            }
        }
    }

    /// Whether the pulse wrapped since last asked; clears it.
    pub fn take_wrapped(&mut self) -> (r: bool)
        ensures
            r == old(self).wrapped,
            *final(self) == (Pulse { wrapped: false, ..*old(self) }),
    {
        let v = self.wrapped;
        self.wrapped = false;
        v
    }
}

/// What is told when the pulse reaches a sync point: the point's
/// position.
pub trait SyncCallback {
    fn pulse_sync(&mut self, position: usize);
}

/// A pulse that calls back at sync points: `add` registers a callback at
/// a position and gives its index (none when it cannot), `remove` drops
/// one, and the pulse reports its position and length.
pub trait PulseSync {
    fn add(&mut self, callback: &mut dyn SyncCallback, position: usize) -> Option<usize>;

    fn remove(&mut self, index: usize);

    fn position(&self) -> usize;

    fn length(&self) -> usize;
}

/// What is told when a sync point is reached: the sync point's index and
/// the position the pulse was actually at.
pub trait PulseSyncCallback {
    fn pulse_sync(&mut self, sync_index: usize, actual_pos: u32);
}

} // verus!
