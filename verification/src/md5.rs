//! MD5 message digest (RFC 1321), used to name saved loops and scenes.

use vstd::prelude::*;

verus! {

/// The four-word chaining state.
pub struct Md5State {
    pub a: u32,
    pub b: u32,
    pub c: u32,
    pub d: u32,
}

/// The per-step additive constants: the integer part of
/// `abs(sin(i + 1)) * 2^32`.
pub open spec fn md5_k_table() -> Seq<u32> {
    seq![
        0xd76aa478u32, 0xe8c7b756, 0x242070db, 0xc1bdceee, 0xf57c0faf, 0x4787c62a, 0xa8304613, 0xfd469501,
        0x698098d8, 0x8b44f7af, 0xffff5bb1, 0x895cd7be, 0x6b901122, 0xfd987193, 0xa679438e, 0x49b40821,
        0xf61e2562, 0xc040b340, 0x265e5a51, 0xe9b6c7aa, 0xd62f105d, 0x02441453, 0xd8a1e681, 0xe7d3fbc8,
        0x21e1cde6, 0xc33707d6, 0xf4d50d87, 0x455a14ed, 0xa9e3e905, 0xfcefa3f8, 0x676f02d9, 0x8d2a4c8a,
        0xfffa3942, 0x8771f681, 0x6d9d6122, 0xfde5380c, 0xa4beea44, 0x4bdecfa9, 0xf6bb4b60, 0xbebfbc70,
        0x289b7ec6, 0xeaa127fa, 0xd4ef3085, 0x04881d05, 0xd9d4d039, 0xe6db99e5, 0x1fa27cf8, 0xc4ac5665,
        0xf4292244, 0x432aff97, 0xab9423a7, 0xfc93a039, 0x655b59c3, 0x8f0ccc92, 0xffeff47d, 0x85845dd1,
        0x6fa87e4f, 0xfe2ce6e0, 0xa3014314, 0x4e0811a1, 0xf7537e82, 0xbd3af235, 0x2ad7d2bb, 0xeb86d391,
    ]
}

/// The rotation amounts, four per round.
pub open spec fn md5_s_table() -> Seq<u32> {
    seq![7u32, 12, 17, 22, 5, 9, 14, 20, 4, 11, 16, 23, 6, 10, 15, 21]
}

/// Rotation amount of step `i`.
pub open spec fn md5_shift(i: int) -> u32 {
    md5_s_table()[i % 4 + (i / 16) * 4]
}

/// The auxiliary function of step `i`.
pub open spec fn md5_f(i: int, b: u32, c: u32, d: u32) -> u32 {
    if i < 16 {
        (b & c) | (!b & d)
    } else if i < 32 {
        (d & b) | (!d & c)
    } else if i < 48 {
        b ^ c ^ d
    } else {
        c ^ (b | !d)
    }
}

/// The message word that step `i` reads.
pub open spec fn md5_g(i: int) -> int {
    if i < 16 {
        i
    } else if i < 32 {
        (5 * i + 1) % 16
    } else if i < 48 {
        (3 * i + 5) % 16
    } else {
        (7 * i) % 16
    }
}

/// 32-bit left rotation by `s` (for `0 < s < 32`).
pub open spec fn rotl(x: u32, s: u32) -> u32 {
    (x << s) | (x >> ((32 - s) as u32))
}

/// One of the 64 steps of the compression function.
pub open spec fn md5_step(st: Md5State, q: Seq<u32>, i: int) -> Md5State {
    let t = st.a.wrapping_add(md5_f(i, st.b, st.c, st.d)).wrapping_add(md5_k_table()[i]).wrapping_add(
        q[md5_g(i)],
    );
    Md5State { a: st.d, b: st.b.wrapping_add(rotl(t, md5_shift(i))), c: st.b, d: st.c }
}

/// The first `n` steps of the compression function.
pub open spec fn md5_steps(st: Md5State, q: Seq<u32>, n: nat) -> Md5State
    decreases n,
{
    if n == 0 {
        st
    } else {
        md5_step(md5_steps(st, q, (n - 1) as nat), q, n - 1)
    }
}

/// Little-endian 32-bit word `j` of a 64-byte block.
pub open spec fn md5_word(block: Seq<u8>, j: int) -> u32 {
    (block[4 * j] as u32) | ((block[4 * j + 1] as u32) << 8u32) | ((block[4 * j + 2] as u32)
        << 16u32) | ((block[4 * j + 3] as u32) << 24u32)
}

/// The sixteen message words of a 64-byte block.
pub open spec fn md5_words(block: Seq<u8>) -> Seq<u32> {
    Seq::new(16, |j: int| md5_word(block, j))
}

/// The compression function: 64 steps, then the input state is added back.
pub open spec fn md5_compress(st: Md5State, block: Seq<u8>) -> Md5State {
    let r = md5_steps(st, md5_words(block), 64);
    Md5State {
        a: r.a.wrapping_add(st.a),
        b: r.b.wrapping_add(st.b),
        c: r.c.wrapping_add(st.c),
        d: r.d.wrapping_add(st.d),
    }
}

/// The state after compressing the first `n` 64-byte blocks of `m`.
pub open spec fn md5_chain(m: Seq<u8>, n: nat) -> Md5State
    decreases n,
{
    if n == 0 {
        Md5State { a: 0x67452301, b: 0xefcdab89, c: 0x98badcfe, d: 0x10325476 }
    } else {
        md5_compress(md5_chain(m, (n - 1) as nat), m.subrange(64 * (n - 1), (64 * n) as int))
    }
}

/// Little-endian bytes of a 64-bit value.
pub open spec fn le_bytes_u64(x: u64) -> Seq<u8> {
    Seq::new(8, |i: int| ((x >> (8 * i) as u64) & 0xff) as u8)
}

/// Little-endian bytes of a 32-bit value.
pub open spec fn le_bytes_u32(x: u32) -> Seq<u8> {
    Seq::new(4, |i: int| ((x >> (8 * i) as u32) & 0xff) as u8)
}

/// Number of zero bytes that padding inserts after the `0x80` marker.
pub open spec fn md5_zero_pad(len: nat) -> nat {
    ((119 - (len % 64)) % 64) as nat
}

/// The padded message: a `0x80` byte, zeros up to 56 mod 64, then the
/// message length in bits (modulo 2^64), little-endian.
pub open spec fn md5_padded(msg: Seq<u8>) -> Seq<u8> {
    msg + seq![0x80u8] + Seq::new(md5_zero_pad(msg.len()), |i: int| 0u8) + le_bytes_u64(
        (msg.len() * 8) as u64,
    )
}

/// The digest of `msg`: the final state's words, little-endian.
pub open spec fn md5_digest(msg: Seq<u8>) -> Seq<u8> {
    let p = md5_padded(msg);
    let st = md5_chain(p, p.len() / 64);
    le_bytes_u32(st.a) + le_bytes_u32(st.b) + le_bytes_u32(st.c) + le_bytes_u32(st.d)
}

fn md5_k(i: usize) -> (r: u32)
    requires
        i < 64,
    ensures
        r == md5_k_table()[i as int],
{
    let table: [u32; 64] = [
        0xd76aa478u32, 0xe8c7b756, 0x242070db, 0xc1bdceee, 0xf57c0faf, 0x4787c62a, 0xa8304613, 0xfd469501,
        0x698098d8, 0x8b44f7af, 0xffff5bb1, 0x895cd7be, 0x6b901122, 0xfd987193, 0xa679438e, 0x49b40821,
        0xf61e2562, 0xc040b340, 0x265e5a51, 0xe9b6c7aa, 0xd62f105d, 0x02441453, 0xd8a1e681, 0xe7d3fbc8,
        0x21e1cde6, 0xc33707d6, 0xf4d50d87, 0x455a14ed, 0xa9e3e905, 0xfcefa3f8, 0x676f02d9, 0x8d2a4c8a,
        0xfffa3942, 0x8771f681, 0x6d9d6122, 0xfde5380c, 0xa4beea44, 0x4bdecfa9, 0xf6bb4b60, 0xbebfbc70,
        0x289b7ec6, 0xeaa127fa, 0xd4ef3085, 0x04881d05, 0xd9d4d039, 0xe6db99e5, 0x1fa27cf8, 0xc4ac5665,
        0xf4292244, 0x432aff97, 0xab9423a7, 0xfc93a039, 0x655b59c3, 0x8f0ccc92, 0xffeff47d, 0x85845dd1,
        0x6fa87e4f, 0xfe2ce6e0, 0xa3014314, 0x4e0811a1, 0xf7537e82, 0xbd3af235, 0x2ad7d2bb, 0xeb86d391,
    ];
    assert(table@ =~= md5_k_table());
    table[i]
}

fn md5_s(i: usize) -> (r: u32)
    requires
        i < 64,
    ensures
        r == md5_shift(i as int),
        0 < r < 32,
{
    let table: [u32; 16] = [7u32, 12, 17, 22, 5, 9, 14, 20, 4, 11, 16, 23, 6, 10, 15, 21];
    assert(table@ =~= md5_s_table());
    table[i % 4 + (i / 16) * 4]
}

/// Compresses the block `m[start..start + 64]` into `st`.
fn md5_compress_exec(st: &Md5State, m: &Vec<u8>, start: usize) -> (r: Md5State)
    requires
        start + 64 <= m@.len(),
    ensures
        r == md5_compress(*st, m@.subrange(start as int, start + 64)),
{
    let ghost block = m@.subrange(start as int, start + 64);
    let len = m.len();
    let mut q: [u32; 16] = [0u32; 16];
    let mut j: usize = 0;
    while j < 16
        invariant
            j <= 16,
            start + 64 <= len,
            len == m@.len(),
            block == m@.subrange(start as int, start + 64),
            forall|k: int| 0 <= k < j ==> q@[k] == md5_word(block, k),
        decreases 16 - j,
    {
        let p = start + 4 * j;
        q[j] = (m[p] as u32) | ((m[p + 1] as u32) << 8u32) | ((m[p + 2] as u32) << 16u32) | ((m[p
            + 3] as u32) << 24u32);
        j = j + 1;
    }
    assert(q@ =~= md5_words(block));
    let mut cur = Md5State { a: st.a, b: st.b, c: st.c, d: st.d };
    let mut i: usize = 0;
    while i < 64
        invariant
            i <= 64,
            q@ == md5_words(block),
            cur == md5_steps(*st, md5_words(block), i as nat),
        decreases 64 - i,
    {
        let f = if i < 16 {
            (cur.b & cur.c) | (!cur.b & cur.d)
        } else if i < 32 {
            (cur.d & cur.b) | (!cur.d & cur.c)
        } else if i < 48 {
            cur.b ^ cur.c ^ cur.d
        } else {
            cur.c ^ (cur.b | !cur.d)
        };
        let g = if i < 16 {
            i
        } else if i < 32 {
            (5 * i + 1) % 16
        } else if i < 48 {
            (3 * i + 5) % 16
        } else {
            (7 * i) % 16
        };
        let t = cur.a.wrapping_add(f).wrapping_add(md5_k(i)).wrapping_add(q[g]);
        let s = md5_s(i);
        let rot = (t << s) | (t >> (32 - s));
        cur = Md5State { a: cur.d, b: cur.b.wrapping_add(rot), c: cur.b, d: cur.c };
        i = i + 1;
    }
    Md5State {
        a: cur.a.wrapping_add(st.a),
        b: cur.b.wrapping_add(st.b),
        c: cur.c.wrapping_add(st.c),
        d: cur.d.wrapping_add(st.d),
    }
}

/// Writes the little-endian bytes of `w` to `out[at..at + 4]`.
fn put_le_u32(out: &mut [u8; 16], at: usize, w: u32)
    requires
        at + 4 <= 16,
    ensures
        final(out)@ == old(out)@.subrange(0, at as int) + le_bytes_u32(w) + old(out)@.subrange(
            at + 4,
            16,
        ),
{
    out[at] = (w & 0xff) as u8;
    out[at + 1] = ((w >> 8u32) & 0xff) as u8;
    out[at + 2] = ((w >> 16u32) & 0xff) as u8;
    out[at + 3] = ((w >> 24u32) & 0xff) as u8;
    assert(w >> (8 * 0) as u32 == w) by (bit_vector);
    assert(final(out)@ =~= old(out)@.subrange(0, at as int) + le_bytes_u32(w) + old(out)@.subrange(
        at + 4,
        16,
    ));
}

/// MD5 digest of `input`.
pub fn md5(input: &[u8]) -> (out: [u8; 16])
    requires
        input@.len() * 8 <= u64::MAX,
    ensures
        out@ == md5_digest(input@),
{
    let mut m: Vec<u8> = vstd::slice::slice_to_vec(input);
    let bits: u64 = (m.len() as u64) * 8;
    m.push(0x80u8);
    let r = input.len() % 64;
    let zeros: usize = if r <= 55 { 55 - r } else { 119 - r };
    assert(zeros == md5_zero_pad(input@.len()));
    let ghost marked = m@;
    let mut z: usize = 0;
    while z < zeros
        invariant
            z <= zeros,
            m@ == marked + Seq::new(z as nat, |i: int| 0u8),
        decreases zeros - z,
    {
        m.push(0u8);
        z = z + 1;
        assert(m@ =~= marked + Seq::new(z as nat, |i: int| 0u8));
    }
    let mut k: usize = 0;
    let ghost before = m@;
    while k < 8
        invariant
            k <= 8,
            m@ == before + le_bytes_u64(bits).subrange(0, k as int),
        decreases 8 - k,
    {
        m.push(((bits >> (8 * k) as u64) & 0xff) as u8);
        assert(m@ =~= before + le_bytes_u64(bits).subrange(0, k + 1));
        k = k + 1;
    }
    assert(m@ =~= md5_padded(input@));
    let mlen = m.len();
    let nblocks = mlen / 64;
    let mut st = Md5State { a: 0x67452301u32, b: 0xefcdab89u32, c: 0x98badcfeu32, d: 0x10325476u32 };
    let mut blk: usize = 0;
    while blk < nblocks
        invariant
            blk <= nblocks,
            nblocks == mlen / 64,
            mlen == m@.len(),
            m@ == md5_padded(input@),
            st == md5_chain(m@, blk as nat),
        decreases nblocks - blk,
    {
        assert(64 * blk + 64 <= m@.len()) by (nonlinear_arith)
            requires blk < nblocks, nblocks == mlen / 64, mlen == m@.len();
        st = md5_compress_exec(&st, &m, 64 * blk);
        blk = blk + 1;
    }
    let mut out: [u8; 16] = [0u8; 16];
    put_le_u32(&mut out, 0, st.a);
    put_le_u32(&mut out, 4, st.b);
    put_le_u32(&mut out, 8, st.c);
    put_le_u32(&mut out, 12, st.d);
    assert(out@ =~= md5_digest(input@));
    out
}

/// Law: padding makes a whole number of 64-byte blocks, longer than the
/// message by 9 to 72 bytes, and the digest has 16 bytes.
pub proof fn law_md5_padding(msg: Seq<u8>)
    ensures
        md5_padded(msg).len() % 64 == 0,
        msg.len() + 9 <= md5_padded(msg).len() <= msg.len() + 72,
        md5_digest(msg).len() == 16,
{
    let n = msg.len() as int;
    let z = md5_zero_pad(msg.len()) as int;
    assert(md5_padded(msg).len() == n + 1 + z + 8);
    assert((n + 9 + z) % 64 == 0) by {
        assert(z == (119 - n % 64) % 64);
    }
}

} // verus!
