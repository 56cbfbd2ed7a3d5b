//! Chains of audio blocks, and an iterator that writes and reads them in
//! fragments.  A sample (`f32`) is kept as its bit pattern: nothing here
//! computes with samples, and 0 is the pattern of silence.

use vstd::prelude::*;
use crate::blocks::{BlockExtendedData, BlockExtendedDataType};
use crate::md5::{le_bytes_u32, le_bytes_u64};
use crate::text::string_from;

verus! {

/// Default number of samples in a block.
pub const AUDIOBLOCK_DEFAULT_LEN: usize = 20_000;

/// Number of samples smoothed at the ends of a loop.
pub const AUDIOBLOCK_SMOOTH_ENDPOINTS_LEN: usize = 64;

/// `n` silent samples.
pub open spec fn silence(n: nat) -> Seq<u32> {
    Seq::new(n, |_i: int| 0u32)
}

/// `len` silent samples.
fn silent_samples(len: usize) -> (v: Vec<u32>)
    ensures
        v@ == silence(len as nat),
{
    let mut v: Vec<u32> = Vec::new();
    let mut i: usize = 0;
    while i < len
        invariant
            i <= len,
            v@ == silence(i as nat),
        decreases len - i,
    {
        v.push(0);
        i = i + 1;
        assert(v@ =~= silence(i as nat));
    }
    v
}

/// The second channel of a stereo block.
#[derive(Debug, Clone, PartialEq)]
pub struct ExtraChannel {
    pub samples: Vec<u32>,
}

impl ExtraChannel {
    /// A silent channel of `len` samples.
    pub fn new(len: usize) -> (c: ExtraChannel)
        ensures
            c.samples@ == silence(len as nat),
    {
        ExtraChannel { samples: silent_samples(len) }
    }
}

impl BlockExtendedData for ExtraChannel {
    fn kind(&self) -> BlockExtendedDataType {
        BlockExtendedDataType::ExtraChannel
    }
}

/// A block of samples, with an optional second channel, and the rest of
/// its chain.
#[derive(Debug)]
pub struct AudioBlock {
    pub samples: Vec<u32>,
    pub extra: Option<ExtraChannel>,
    pub next: Option<Box<AudioBlock>>,
}

impl AudioBlock {
    /// The samples of the chain from this block on.
    pub open spec fn chain(&self) -> Seq<u32>
        decreases self,
    {
        self.samples@ + match self.next {
            Some(n) => n.chain(),
            None => Seq::empty(),
        }
    }

    /// The second-channel sample at `offset` of the chain, where the block
    /// holding that offset has one.
    pub open spec fn extra_at(&self, offset: int) -> Option<u32>
        decreases self,
    {
        if offset < self.samples@.len() {
            match self.extra {
                Some(e) => if 0 <= offset < e.samples@.len() {
                    Some(e.samples@[offset])
                } else {
                    None
                },
                None => None,
            }
        } else {
            match self.next {
                Some(n) => n.extra_at(offset - self.samples@.len()),
                None => None,
            }
        }
    }

    /// The number of blocks in the chain.
    pub open spec fn blocks(&self) -> nat
        decreases self,
    {
        1 + match self.next {
            Some(n) => n.blocks(),
            None => 0,
        }
    }

    /// A silent mono block of `len` samples, alone in its chain.
    pub fn new(len: usize) -> (b: AudioBlock)
        ensures
            b.samples@ == silence(len as nat),
            b.extra is None,
            b.next is None,
            b.chain() == silence(len as nat),
    {
        let b = AudioBlock { samples: silent_samples(len), extra: None, next: None };
        assert(b.chain() =~= silence(len as nat));
        b
    }

    /// The number of samples in the chain.
    pub fn total_len(&self) -> (n: usize)
        requires
            self.chain().len() <= usize::MAX,
        ensures
            n == self.chain().len(),
        decreases self,
    {
        let rest = match &self.next {
            Some(n) => n.total_len(),
            None => 0,
        };
        self.samples.len() + rest
    }

    /// Whether the block has a second channel.
    pub fn is_stereo(&self) -> (r: bool)
        ensures
            r == (self.extra is Some),
    {
        self.extra.is_some()
    }

    /// Ends the chain at this block.
    pub fn chop_chain(&mut self)
        ensures
            final(self).samples == old(self).samples,
            final(self).extra == old(self).extra,
            final(self).next is None,
    {
        self.next = None;
    }

    /// Makes `block` (with its chain) follow this block.
    pub fn link(&mut self, block: AudioBlock)
        ensures
            final(self).samples == old(self).samples,
            final(self).extra == old(self).extra,
            final(self).next == Some(Box::new(block)),
    {
        self.next = Some(Box::new(block));
    }

    /// The sample at `offset` of the chain, if the chain is that long.
    pub fn sample(&self, offset: usize) -> (r: Option<u32>)
        ensures
            r == (if offset < self.chain().len() { Some(self.chain()[offset as int]) } else { None }),
        decreases self,
    {
        let len = self.samples.len();
        if offset < len {
            Some(self.samples[offset])
        } else {
            match &self.next {
                Some(n) => n.sample(offset - len),
                None => None,
            }
        }
    }
}


/// Silences `v`.
fn silence_all(v: &mut Vec<u32>)
    ensures
        final(v)@ == silence(old(v)@.len()),
{
    let n = v.len();
    let mut i: usize = 0;
    while i < n
        invariant
            i <= n,
            n == v@.len(),
            forall|k: int| 0 <= k < i ==> v@[k] == 0,
        decreases n - i,
    {
        v.set(i, 0);
        i = i + 1;
    }
    assert(v@ =~= silence(n as nat));
}

/// The second-channel sample at an offset after silencing: silence where
/// there was one.
pub open spec fn silenced(x: Option<u32>) -> Option<u32> {
    match x {
        Some(_) => Some(0u32),
        None => None,
    }
}

impl AudioBlock {
    /// Silences every sample of the chain, in both channels.
    pub fn zero(&mut self)
        ensures
            final(self).chain() == silence(old(self).chain().len()),
            forall|o: int| 0 <= o ==> #[trigger] final(self).extra_at(o) == silenced(old(self).extra_at(o)),
            final(self).blocks() == old(self).blocks(),
            final(self).samples@.len() == old(self).samples@.len(),
        decreases old(self).blocks(),
    {
        silence_all(&mut self.samples);
        match self.extra.take() {
            Some(mut e) => {
                silence_all(&mut e.samples);
                self.extra = Some(e);
            },
            None => {},
        }
        match self.next.take() {
            Some(mut b) => {
                assert(old(self).blocks() == 1 + b.blocks());
                b.zero();
                self.next = Some(b);
            },
            None => {},
        }
        proof {
            assert(self.chain() =~= silence(old(self).chain().len()));
            assert forall|o: int| 0 <= o implies #[trigger] self.extra_at(o) == silenced(old(self).extra_at(o)) by {
                if o >= self.samples@.len() {
                    match old(self).next {
                        Some(n) => {
                            assert(old(self).extra_at(o) == n.extra_at(o - self.samples@.len()));
                            match self.next {
                                Some(m) => {
                                    assert(self.extra_at(o) == m.extra_at(o - self.samples@.len()));
                                },
                                None => {},
                            }
                        },
                        None => {},
                    }
                }
            }
        }
    }
}


/// Where a copy from `from` to `to` ends in a chain of `total` samples: at
/// `to` (at most the end), or at the end when `to` comes before `from`.
pub open spec fn subchain_end(total: int, from: int, to: int) -> int {
    if to >= from {
        if to < total { to } else { total }
    } else {
        total
    }
}

/// The number of samples such a copy has.
pub open spec fn subchain_len(total: int, from: int, to: int) -> int {
    let end = subchain_end(total, from, to);
    if end > from { end - from } else { 0 }
}

/// A sample, or silence where there is none.
pub open spec fn or_silence(x: Option<u32>) -> u32 {
    match x {
        Some(v) => v,
        None => 0u32,
    }
}

/// The bytes of samples, each little-endian.
pub open spec fn samples_le_bytes(s: Seq<u32>) -> Seq<u8>
    decreases s.len(),
{
    if s.len() == 0 {
        Seq::empty()
    } else {
        samples_le_bytes(s.drop_last()) + le_bytes_u32(s.last())
    }
}

/// The magic bytes that start a stored block: `FWB1`.
pub open spec fn block_magic() -> Seq<u8> {
    seq![70u8, 87u8, 66u8, 49u8]
}

/// A stored chain: the magic, the number of samples (64 bits,
/// little-endian), then each sample.
pub open spec fn block_bytes(chain: Seq<u32>) -> Seq<u8> {
    block_magic() + le_bytes_u64(chain.len() as u64) + samples_le_bytes(chain)
}

/// The error of a read past the end of the bytes.
pub open spec fn short_read_error() -> Seq<char> {
    "failed to fill whole buffer"@
}

/// The 64-bit little-endian number at `at`.
pub open spec fn le_u64_at(b: Seq<u8>, at: int) -> u64 {
    (b[at] as u64) | ((b[at + 1] as u64) << 8u64) | ((b[at + 2] as u64) << 16u64) | ((b[at + 3] as u64)
        << 24u64) | ((b[at + 4] as u64) << 32u64) | ((b[at + 5] as u64) << 40u64) | ((b[at + 6] as u64)
        << 48u64) | ((b[at + 7] as u64) << 56u64)
}

/// The 32-bit little-endian number at `at`.
pub open spec fn le_u32_at(b: Seq<u8>, at: int) -> u32 {
    (b[at] as u32) | ((b[at + 1] as u32) << 8u32) | ((b[at + 2] as u32) << 16u32) | ((b[at + 3] as u32)
        << 24u32)
}

/// What reading a stored block from `b` gives: its samples, or the error.
pub open spec fn read_block(b: Seq<u8>) -> Result<Seq<u32>, Seq<char>> {
    if b.len() < 4 {
        Err(short_read_error())
    } else if b.take(4) != block_magic() {
        Err("invalid block"@)
    } else if b.len() < 12 {
        Err(short_read_error())
    } else if (b.len() - 12) / 4 < le_u64_at(b, 4) {
        Err(short_read_error())
    } else {
        Ok(Seq::new(le_u64_at(b, 4) as nat, |i: int| le_u32_at(b, 12 + 4 * i)))
    }
}

impl AudioBlock {
    /// The second-channel sample at `offset` of the chain, if any.
    fn extra_sample(&self, offset: usize) -> (r: Option<u32>)
        ensures
            r == self.extra_at(offset as int),
        decreases self,
    {
        let len = self.samples.len();
        if offset < len {
            match &self.extra {
                Some(e) => {
                    if offset < e.samples.len() {
                        Some(e.samples[offset])
                    } else {
                        None
                    }
                },
                None => None,
            }
        } else {
            match &self.next {
                Some(n) => n.extra_sample(offset - len),
                None => None,
            }
        }
    }

    /// A new block holding the samples from `from` up to `to` (or to the
    /// end of the chain), wrapping around the chain's end; with `stereo`
    /// the second channel too (silence where the chain has none).
    pub fn generate_subchain(&self, from: usize, to: usize, stereo: bool) -> (out: AudioBlock)
        requires
            self.chain().len() <= usize::MAX,
        ensures
            out.next is None,
            out.samples@.len() == subchain_len(self.chain().len() as int, from as int, to as int),
            forall|i: int|
                0 <= i < out.samples@.len() ==> #[trigger] out.samples@[i] == self.chain()[(from + i)
                    % (self.chain().len() as int)],
            stereo ==> (out.extra matches Some(e) && e.samples@.len() == out.samples@.len() && forall|i: int|
                0 <= i < out.samples@.len() ==> #[trigger] e.samples@[i] == or_silence(
                    self.extra_at((from + i) % (self.chain().len() as int)),
                )),
            !stereo ==> out.extra is None,
    {
        let total = self.total_len();
        let end = if to >= from {
            if to < total { to } else { total }
        } else {
            total
        };
        let len = if end > from { end - from } else { 0 };
        let mut out = AudioBlock::new(len);
        let mut i: usize = 0;
        while i < len
            invariant
                i <= len,
                len == subchain_len(total as int, from as int, to as int),
                total == self.chain().len(),
                len > 0 ==> total > 0 && from + len <= total,
                out.samples@.len() == len,
                out.extra is None,
                out.next is None,
                forall|k: int| 0 <= k < i ==> #[trigger] out.samples@[k] == self.chain()[(from + k) % (total as int)],
            decreases len - i,
        {
            let at = (from + i) % total;
            let v = match self.sample(at) {
                Some(v) => v,
                None => 0,
            };
            out.samples.set(i, v);
            i = i + 1;
        }
        if stereo {
            let mut ex = ExtraChannel::new(len);
            let mut j: usize = 0;
            while j < len
                invariant
                    j <= len,
                    len == out.samples@.len(),
                    len > 0 ==> total > 0 && from + len <= total,
                    total == self.chain().len(),
                    ex.samples@.len() == len,
                    forall|k: int|
                        0 <= k < j ==> #[trigger] ex.samples@[k] == or_silence(
                            self.extra_at((from + k) % (total as int)),
                        ),
                decreases len - j,
            {
                let at = (from + j) % total;
                let v = match self.extra_sample(at) {
                    Some(v) => v,
                    None => 0,
                };
                ex.samples.set(j, v);
                j = j + 1;
            }
            out.extra = Some(ex);
        }
        out
    }

    /// The chain stored as bytes: `FWB1`, the number of samples (64 bits,
    /// little-endian), then each sample (32 bits, little-endian).
    pub fn serialize(&self) -> (b: Vec<u8>)
        requires
            self.chain().len() <= usize::MAX,
        ensures
            b@ == block_bytes(self.chain()),
    {
        let total = self.total_len();
        let mut b: Vec<u8> = Vec::new();
        b.push(70u8);
        b.push(87u8);
        b.push(66u8);
        b.push(49u8);
        let n = total as u64;
        let mut k: u64 = 0;
        let ghost head = b@;
        assert(head =~= block_magic());
        while k < 8
            invariant
                k <= 8,
                b@ == head + le_bytes_u64(n).subrange(0, k as int),
            decreases 8 - k,
        {
            b.push(((n >> (8 * k)) & 0xff) as u8);
            assert(b@ =~= head + le_bytes_u64(n).subrange(0, k + 1));
            k = k + 1;
        }
        assert(le_bytes_u64(n).subrange(0, 8) =~= le_bytes_u64(n));
        let ghost front = b@;
        let mut i: usize = 0;
        while i < total
            invariant
                i <= total,
                total == self.chain().len(),
                b@ == front + samples_le_bytes(self.chain().take(i as int)),
            decreases total - i,
        {
            let v = match self.sample(i) {
                Some(v) => v,
                None => 0,
            };
            let ghost before = b@;
            let mut j: u32 = 0;
            while j < 4
                invariant
                    j <= 4,
                    b@ == before + le_bytes_u32(v).subrange(0, j as int),
                decreases 4 - j,
            {
                b.push(((v >> (8 * j)) & 0xff) as u8);
                assert(b@ =~= before + le_bytes_u32(v).subrange(0, j + 1));
                j = j + 1;
            }
            assert(le_bytes_u32(v).subrange(0, 4) =~= le_bytes_u32(v));
            assert(self.chain().take(i + 1).drop_last() =~= self.chain().take(i as int));
            assert(self.chain().take(i + 1).last() == v);
            i = i + 1;
        }
        assert(self.chain().take(total as int) =~= self.chain());
        assert(b@ =~= block_bytes(self.chain()));
        b
    }

    /// Reads a stored block (see `serialize`) as one block: bytes that do
    /// not start with `FWB1` are refused, and so are bytes that end before
    /// the samples they announce.  Bytes after those samples are ignored.
    pub fn deserialize(bytes: &[u8]) -> (r: Result<AudioBlock, String>)
        ensures
            match read_block(bytes@) {
                Ok(s) => r matches Ok(b) && b.samples@ == s && b.extra is None && b.next is None,
                Err(e) => r matches Err(m) && m@ == e,
            },
    {
        let len = bytes.len();
        if len < 4 {
            return Err(string_from("failed to fill whole buffer"));
        }
        if !(bytes[0] == 70u8 && bytes[1] == 87u8 && bytes[2] == 66u8 && bytes[3] == 49u8) {
            proof {
                if bytes@.take(4) == block_magic() {
                    assert(bytes@.take(4)[0] == bytes@[0]);
                    assert(bytes@.take(4)[1] == bytes@[1]);
                    assert(bytes@.take(4)[2] == bytes@[2]);
                    assert(bytes@.take(4)[3] == bytes@[3]);
                }
            }
            return Err(string_from("invalid block"));
        }
        assert(bytes@.take(4) =~= block_magic());
        if len < 12 {
            return Err(string_from("failed to fill whole buffer"));
        }
        let n: u64 = (bytes[4] as u64) | ((bytes[5] as u64) << 8u64) | ((bytes[6] as u64) << 16u64) | ((
        bytes[7] as u64) << 24u64) | ((bytes[8] as u64) << 32u64) | ((bytes[9] as u64) << 40u64) | ((
        bytes[10] as u64) << 48u64) | ((bytes[11] as u64) << 56u64);
        assert(n == le_u64_at(bytes@, 4));
        let room = ((len - 12) / 4) as u64;
        if room < n {
            return Err(string_from("failed to fill whole buffer"));
        }
        let count = n as usize;
        let mut samples: Vec<u32> = Vec::new();
        let mut i: usize = 0;
        while i < count
            invariant
                i <= count,
                count == n,
                len == bytes@.len(),
                12 + 4 * count <= len,
                samples@.len() == i,
                forall|k: int| 0 <= k < i ==> #[trigger] samples@[k] == le_u32_at(bytes@, 12 + 4 * k),
            decreases count - i,
        {
            let at = 12 + 4 * i;
            let v: u32 = (bytes[at] as u32) | ((bytes[at + 1] as u32) << 8u32) | ((bytes[at + 2] as u32)
                << 16u32) | ((bytes[at + 3] as u32) << 24u32);
            samples.push(v);
            i = i + 1;
        }
        assert(samples@ =~= Seq::new(n as nat, |k: int| le_u32_at(bytes@, 12 + 4 * k)));
        Ok(AudioBlock { samples, extra: None, next: None })
    }
}


impl AudioBlock {
    /// The block holding `offset` of the chain has no second channel, or
    /// one long enough to hold that offset (true past the chain's end).
    pub open spec fn extra_fits_at(&self, offset: int) -> bool
        decreases self,
    {
        if offset < self.samples@.len() {
            match self.extra {
                Some(e) => offset < e.samples@.len(),
                None => true,
            }
        } else {
            match self.next {
                Some(n) => n.extra_fits_at(offset - self.samples@.len()),
                None => true,
            }
        }
    }

    /// Sets sample `p` of the chain to `v` (nothing past the end).
    fn set_at(&mut self, p: usize, v: u32)
        ensures
            final(self).chain() == (if p < old(self).chain().len() {
                old(self).chain().update(p as int, v)
            } else {
                old(self).chain()
            }),
            forall|o: int| #[trigger] final(self).extra_at(o) == old(self).extra_at(o),
            forall|o: int| #[trigger] final(self).extra_fits_at(o) == old(self).extra_fits_at(o),
            final(self).samples@.len() == old(self).samples@.len(),
            final(self).blocks() == old(self).blocks(),
        decreases old(self).blocks(),
    {
        let len = self.samples.len();
        if p < len {
            self.samples.set(p, v);
            proof {
                assert(self.chain() =~= old(self).chain().update(p as int, v));
                assert forall|o: int| #[trigger] self.extra_at(o) == old(self).extra_at(o) by {}
                assert forall|o: int| #[trigger] self.extra_fits_at(o) == old(self).extra_fits_at(o) by {}
            }
        } else {
            match self.next.take() {
                Some(mut b) => {
                    assert(old(self).blocks() == 1 + b.blocks());
                    let ghost ob = *b;
                    b.set_at(p - len, v);
                    self.next = Some(b);
                    proof {
                        assert(old(self).chain() == old(self).samples@ + ob.chain());
                        if p < old(self).chain().len() {
                            assert(self.chain() =~= old(self).chain().update(p as int, v));
                        } else {
                            assert(self.chain() =~= old(self).chain());
                        }
                        assert forall|o: int| #[trigger] self.extra_at(o) == old(self).extra_at(o) by {
                            if o >= len {
                                assert(self.extra_at(o) == b.extra_at(o - len));
                                assert(old(self).extra_at(o) == ob.extra_at(o - len));
                            }
                        }
                        assert forall|o: int| #[trigger] self.extra_fits_at(o) == old(self).extra_fits_at(o) by {
                            if o >= len {
                                assert(self.extra_fits_at(o) == b.extra_fits_at(o - len));
                                assert(old(self).extra_fits_at(o) == ob.extra_fits_at(o - len));
                            }
                        }
                    }
                },
                None => {
                    assert(self.chain() =~= old(self).chain());
                },
            }
        }
    }

    /// Sets the second-channel sample `p` of the chain to `v`, giving the
    /// block that holds it a silent second channel first if it has none
    /// (nothing past the end).
    fn set_extra_at(&mut self, p: usize, v: u32)
        requires
            old(self).extra_fits_at(p as int),
        ensures
            final(self).chain() == old(self).chain(),
            p < old(self).chain().len() ==> final(self).extra_at(p as int) == Some(v),
            forall|o: int|
                o != p ==> (#[trigger] final(self).extra_at(o) == old(self).extra_at(o) || (old(self).extra_at(o) is None && final(self).extra_at(o) == Some(0u32))),
            forall|o: int| old(self).extra_fits_at(o) ==> #[trigger] final(self).extra_fits_at(o),
            final(self).samples@.len() == old(self).samples@.len(),
            final(self).blocks() == old(self).blocks(),
        decreases old(self).blocks(),
    {
        let len = self.samples.len();
        if p < len {
            let mut e = match self.extra.take() {
                Some(e) => e,
                None => ExtraChannel::new(len),
            };
            e.samples.set(p, v);
            self.extra = Some(e);
            proof {
                assert(self.chain() =~= old(self).chain());
                assert forall|o: int|
                    o != p implies (#[trigger] self.extra_at(o) == old(self).extra_at(o) || (old(self).extra_at(o) is None && self.extra_at(o) == Some(0u32))) by {}
                assert forall|o: int| old(self).extra_fits_at(o) implies #[trigger] self.extra_fits_at(o) by {}
            }
        } else {
            match self.next.take() {
                Some(mut b) => {
                    assert(old(self).blocks() == 1 + b.blocks());
                    let ghost ob = *b;
                    assert(old(self).extra_fits_at(p as int) == ob.extra_fits_at(p - len));
                    b.set_extra_at(p - len, v);
                    self.next = Some(b);
                    proof {
                        assert(self.chain() =~= old(self).chain());
                        assert forall|o: int|
                            o != p implies (#[trigger] self.extra_at(o) == old(self).extra_at(o) || (old(self).extra_at(o) is None && self.extra_at(o) == Some(0u32))) by {
                            if o >= len {
                                assert(self.extra_at(o) == b.extra_at(o - len));
                                assert(old(self).extra_at(o) == ob.extra_at(o - len));
                            }
                        }
                        assert forall|o: int| old(self).extra_fits_at(o) implies #[trigger] self.extra_fits_at(o) by {
                            if o >= len {
                                assert(self.extra_fits_at(o) == b.extra_fits_at(o - len));
                                assert(old(self).extra_fits_at(o) == ob.extra_fits_at(o - len));
                            }
                        }
                        if p < old(self).chain().len() {
                            assert(self.extra_at(p as int) == b.extra_at(p - len));
                        }
                    }
                },
                None => {
                    assert(self.chain() =~= old(self).chain());
                },
            }
        }
    }
}


/// The peaks and averages of a chain, one of each per chunk of samples.
#[derive(Debug)]
pub struct PeaksAvgs {
    pub peaks: AudioBlock,
    pub avgs: AudioBlock,
    pub chunk_size: usize,
}

impl BlockExtendedData for PeaksAvgs {
    fn kind(&self) -> BlockExtendedDataType {
        BlockExtendedDataType::PeaksAvgs
    }
}

/// The samples of the fragment at `offset`: from there to at most `size`
/// samples on, within the block that holds that offset.
pub open spec fn fragment_at(b: AudioBlock, offset: int, size: int) -> Seq<u32>
    decreases b,
{
    if offset < b.samples@.len() {
        let len = b.samples@.len() as int;
        let end = if size < len - offset { offset + size } else { len };
        b.samples@.subrange(offset, end)
    } else {
        match b.next {
            Some(n) => fragment_at(*n, offset - b.samples@.len(), size),
            None => Seq::empty(),
        }
    }
}

/// `a + b`, at most `limit`.
pub open spec fn capped_sum(a: int, b: int, limit: int) -> int {
    if a + b < limit { a + b } else { limit }
}

/// How many samples a write of `wanted` samples at `position` puts into
/// a chain of `total` samples: as many as fit before its end.
pub open spec fn write_count(wanted: int, position: int, total: int) -> int {
    let room = if position < total { total - position } else { 0 };
    if wanted < room { wanted } else { room }
}

/// The chain after `data` was written over it from `position` (nothing
/// is written from past the end).
pub open spec fn written(chain: Seq<u32>, position: int, data: Seq<u32>) -> Seq<u32> {
    if position <= chain.len() {
        chain.take(position) + data + chain.skip(position + data.len())
    } else {
        chain
    }
}

/// Writes and reads a chain fragment by fragment.
pub struct AudioBlockIterator<'a> {
    pub block: &'a mut AudioBlock,
    pub position: usize,
    pub fragment_size: usize,
    pub stopped: bool,
}

impl<'a> AudioBlockIterator<'a> {
    /// Whether the iterator was stopped.
    pub open spec fn is_stopped(&self) -> bool {
        self.stopped
    }

    /// Starts at the beginning of `block`.
    pub fn new(block: &'a mut AudioBlock, fragment_size: usize) -> (it: AudioBlockIterator<'a>)
        ensures
            *it.block == *old(block),
            *final(block) == *final(it.block),
            it.position == 0,
            it.fragment_size == fragment_size,
            !it.is_stopped(),
    {
        AudioBlockIterator { block, position: 0, fragment_size, stopped: false }
    }

    /// Moves to `offset`, at most the end of the chain.
    pub fn jump(&mut self, offset: usize)
        requires
            old(self).block.chain().len() <= usize::MAX,
        ensures
            final(self).position == (if offset < old(self).block.chain().len() {
                offset as int
            } else {
                old(self).block.chain().len() as int
            }),
            *final(self).block == *old(self).block,
            *final(final(self).block) == *final(old(self).block),
            final(self).fragment_size == old(self).fragment_size,
            final(self).is_stopped() == old(self).is_stopped(),
    {
        let total = self.block.total_len();
        self.position = if offset < total { offset } else { total };
    }

    /// The fragment at the current position: up to `fragment_size`
    /// samples, within the block that holds the position (none past the
    /// end of the chain).
    pub fn get_fragment(&self) -> (r: &[u32])
        ensures
            r@ == fragment_at(*old(self.block), self.position as int, self.fragment_size as int),
    {
        let mut block: &AudioBlock = &*self.block;
        let mut offset = self.position;
        loop
            invariant
                fragment_at(*block, offset as int, self.fragment_size as int) == fragment_at(
                    *self.block,
                    self.position as int,
                    self.fragment_size as int,
                ),
            decreases block.blocks(),
        {
            let len = block.samples.len();
            if offset < len {
                let end = if self.fragment_size < len - offset { offset + self.fragment_size } else { len };
                return vstd::slice::slice_subrange(block.samples.as_slice(), offset, end);
            }
            offset = offset - len;
            match &block.next {
                Some(n) => {
                    block = &**n;
                },
                None => {
                    return &[];
                },
            }
        }
    }

    /// Writes `data` over the chain from the current position, as much as
    /// fits before the end, and moves past it; gives how much was written.
    pub fn put_fragment(&mut self, data: &[u32]) -> (n: usize)
        requires
            old(self).block.chain().len() <= usize::MAX,
        ensures
            n == write_count(data@.len() as int, old(self).position as int, old(self).block.chain().len() as int),
            final(self).block.chain() == written(old(self).block.chain(), old(self).position as int, data@.take(n as int)),
            forall|o: int| #[trigger] final(self).block.extra_at(o) == old(self).block.extra_at(o),
            final(self).position == old(self).position + n,
            *final(final(self).block) == *final(old(self).block),
            final(self).fragment_size == old(self).fragment_size,
            final(self).is_stopped() == old(self).is_stopped(),
    {
        let total = self.block.total_len();
        let room = if self.position < total { total - self.position } else { 0 };
        let n = if data.len() < room { data.len() } else { room };
        let ghost start = self.block.chain();
        let pos = self.position;
        let mut i: usize = 0;
        assert(written(start, pos as int, data@.take(0)) =~= start);
        while i < n
            invariant
                i <= n,
                n <= room,
                n <= data@.len(),
                room == (if pos < total { total - pos } else { 0 }),
                total == start.len(),
                pos == old(self).position,
                self.block.chain() == written(start, pos as int, data@.take(i as int)),
                self.block.chain().len() == total,
                forall|o: int| #[trigger] self.block.extra_at(o) == old(self).block.extra_at(o),
                *final(self.block) == *final(old(self).block),
                self.position == pos,
                self.fragment_size == old(self).fragment_size,
                self.is_stopped() == old(self).is_stopped(),
                start == old(self).block.chain(),
            decreases n - i,
        {
            let ghost before = self.block.chain();
            self.block.set_at(pos + i, data[i]);
            assert(self.block.chain() =~= written(start, pos as int, data@.take(i + 1)));
            i = i + 1;
        }
        self.position = pos + n;
        n
    }

    /// Writes `left` over the chain and `right` over its second channel
    /// from the current position, as much as both have and fits before the
    /// end, and moves past it; gives how much was written.  A block written
    /// into gets a silent second channel first if it has none.
    pub fn put_fragment_stereo(&mut self, left: &[u32], right: &[u32]) -> (n: usize)
        requires
            old(self).block.chain().len() <= usize::MAX,
            forall|o: int|
                old(self).position <= o < old(self).position + write_count(
                    (if left@.len() < right@.len() { left@.len() } else { right@.len() }) as int,
                    old(self).position as int,
                    old(self).block.chain().len() as int,
                ) ==> #[trigger] old(self).block.extra_fits_at(o),
        ensures
            n == write_count(
                (if left@.len() < right@.len() { left@.len() } else { right@.len() }) as int,
                old(self).position as int,
                old(self).block.chain().len() as int,
            ),
            final(self).block.chain() == written(old(self).block.chain(), old(self).position as int, left@.take(n as int)),
            forall|i: int| 0 <= i < n ==> #[trigger] final(self).block.extra_at(old(self).position + i) == Some(right@[i]),
            forall|o: int|
                !(old(self).position <= o < old(self).position + n) ==> (#[trigger] final(self).block.extra_at(o)
                    == old(self).block.extra_at(o) || (old(self).block.extra_at(o) is None
                    && final(self).block.extra_at(o) == Some(0u32))),
            final(self).position == old(self).position + n,
            *final(final(self).block) == *final(old(self).block),
            final(self).fragment_size == old(self).fragment_size,
            final(self).is_stopped() == old(self).is_stopped(),
    {
        let total = self.block.total_len();
        let room = if self.position < total { total - self.position } else { 0 };
        let both = if left.len() < right.len() { left.len() } else { right.len() };
        let n = if both < room { both } else { room };
        let ghost start = self.block.chain();
        let ghost first = *self.block;
        let pos = self.position;
        let mut i: usize = 0;
        assert(written(start, pos as int, left@.take(0)) =~= start);
        while i < n
            invariant
                i <= n,
                n <= room,
                n <= left@.len(),
                n <= right@.len(),
                room == (if pos < total { total - pos } else { 0 }),
                total == start.len(),
                pos == old(self).position,
                first == *old(self).block,
                self.block.chain() == written(start, pos as int, left@.take(i as int)),
                self.block.chain().len() == total,
                forall|o: int| pos + i <= o < pos + n ==> #[trigger] self.block.extra_fits_at(o),
                forall|k: int| 0 <= k < i ==> #[trigger] self.block.extra_at(pos + k) == Some(right@[k]),
                forall|o: int|
                    !(pos <= o < pos + i) ==> (#[trigger] self.block.extra_at(o) == first.extra_at(o) || (
                    first.extra_at(o) is None && self.block.extra_at(o) == Some(0u32))),
                *final(self.block) == *final(old(self).block),
                self.position == pos,
                self.fragment_size == old(self).fragment_size,
                self.is_stopped() == old(self).is_stopped(),
                start == old(self).block.chain(),
            decreases n - i,
        {
            let ghost mid = *self.block;
            self.block.set_at(pos + i, left[i]);
            let ghost after_left = *self.block;
            assert(self.block.chain() =~= written(start, pos as int, left@.take(i + 1)));
            assert(self.block.extra_fits_at((pos + i) as int));
            self.block.set_extra_at(pos + i, right[i]);
            proof {
                assert forall|k: int| 0 <= k < i + 1 implies #[trigger] self.block.extra_at(pos + k) == Some(right@[k]) by {
                    if k < i {
                        assert(mid.extra_at(pos + k) == Some(right@[k]));
                        assert(after_left.extra_at(pos + k) == mid.extra_at(pos + k));
                    }
                }
                assert forall|o: int|
                    !(pos <= o < pos + i + 1) implies (#[trigger] self.block.extra_at(o) == first.extra_at(o) || (
                    first.extra_at(o) is None && self.block.extra_at(o) == Some(0u32))) by {
                    assert(after_left.extra_at(o) == mid.extra_at(o));
                }
                assert forall|o: int| pos + i + 1 <= o < pos + n implies #[trigger] self.block.extra_fits_at(o) by {
                    assert(after_left.extra_fits_at(o) == mid.extra_fits_at(o));
                }
            }
            i = i + 1;
        }
        self.position = pos + n;
        n
    }

    /// Moves one fragment on, at most to the end of the chain.
    pub fn next_fragment(&mut self)
        requires
            old(self).block.chain().len() <= usize::MAX,
        ensures
            final(self).position == capped_sum(
                old(self).position as int,
                old(self).fragment_size as int,
                old(self).block.chain().len() as int,
            ),
            *final(self).block == *old(self).block,
            *final(final(self).block) == *final(old(self).block),
            final(self).fragment_size == old(self).fragment_size,
            final(self).is_stopped() == old(self).is_stopped(),
    {
        let total = self.block.total_len();
        self.position = if self.position < total && self.fragment_size < total - self.position {
            self.position + self.fragment_size
        } else {
            total
        };
    }

    /// Marks the iterator stopped.
    pub fn stop(&mut self)
        ensures
            final(self).is_stopped(),
            *final(self).block == *old(self).block,
            *final(final(self).block) == *final(old(self).block),
            final(self).position == old(self).position,
            final(self).fragment_size == old(self).fragment_size,
    {
        self.stopped = true;
    }

    pub fn stopped(&self) -> (r: bool)
        ensures
            r == self.is_stopped(),
    {
        self.stopped
    }
}


proof fn lemma_le_u32_round_trip(x: u32)
    ensures
        le_u32_at(le_bytes_u32(x), 0) == x,
{
    let b = le_bytes_u32(x);
    let b0 = b[0];
    let b1 = b[1];
    let b2 = b[2];
    let b3 = b[3];
    assert(b0 == ((x >> 0u32) & 0xff) as u8);
    assert(b1 == ((x >> 8u32) & 0xff) as u8);
    assert(b2 == ((x >> 16u32) & 0xff) as u8);
    assert(b3 == ((x >> 24u32) & 0xff) as u8);
    assert((b0 as u32) | ((b1 as u32) << 8u32) | ((b2 as u32) << 16u32) | ((b3 as u32) << 24u32) == x)
        by (bit_vector)
        requires
            b0 == ((x >> 0u32) & 0xff) as u8,
            b1 == ((x >> 8u32) & 0xff) as u8,
            b2 == ((x >> 16u32) & 0xff) as u8,
            b3 == ((x >> 24u32) & 0xff) as u8,
    ;
}

proof fn lemma_le_u64_round_trip(x: u64)
    ensures
        le_u64_at(le_bytes_u64(x), 0) == x,
{
    let b = le_bytes_u64(x);
    let b0 = b[0];
    let b1 = b[1];
    let b2 = b[2];
    let b3 = b[3];
    let b4 = b[4];
    let b5 = b[5];
    let b6 = b[6];
    let b7 = b[7];
    assert(b0 == ((x >> 0u64) & 0xff) as u8);
    assert(b1 == ((x >> 8u64) & 0xff) as u8);
    assert(b2 == ((x >> 16u64) & 0xff) as u8);
    assert(b3 == ((x >> 24u64) & 0xff) as u8);
    assert(b4 == ((x >> 32u64) & 0xff) as u8);
    assert(b5 == ((x >> 40u64) & 0xff) as u8);
    assert(b6 == ((x >> 48u64) & 0xff) as u8);
    assert(b7 == ((x >> 56u64) & 0xff) as u8);
    assert((b0 as u64) | ((b1 as u64) << 8u64) | ((b2 as u64) << 16u64) | ((b3 as u64) << 24u64) | ((
    b4 as u64) << 32u64) | ((b5 as u64) << 40u64) | ((b6 as u64) << 48u64) | ((b7 as u64) << 56u64) == x)
        by (bit_vector)
        requires
            b0 == ((x >> 0u64) & 0xff) as u8,
            b1 == ((x >> 8u64) & 0xff) as u8,
            b2 == ((x >> 16u64) & 0xff) as u8,
            b3 == ((x >> 24u64) & 0xff) as u8,
            b4 == ((x >> 32u64) & 0xff) as u8,
            b5 == ((x >> 40u64) & 0xff) as u8,
            b6 == ((x >> 48u64) & 0xff) as u8,
            b7 == ((x >> 56u64) & 0xff) as u8,
    ;
}

proof fn lemma_samples_le_bytes_layout(s: Seq<u32>)
    ensures
        samples_le_bytes(s).len() == 4 * s.len(),
        forall|i: int, j: int|
            0 <= i < s.len() && 0 <= j < 4 ==> #[trigger] samples_le_bytes(s)[4 * i + j] == le_bytes_u32(
                s[i],
            )[j],
    decreases s.len(),
{
    if s.len() > 0 {
        lemma_samples_le_bytes_layout(s.drop_last());
        let head = samples_le_bytes(s.drop_last());
        assert forall|i: int, j: int| 0 <= i < s.len() && 0 <= j < 4 implies #[trigger] samples_le_bytes(
            s,
        )[4 * i + j] == le_bytes_u32(s[i])[j] by {
            if i < s.len() - 1 {
                assert(samples_le_bytes(s)[4 * i + j] == head[4 * i + j]);
                assert(s.drop_last()[i] == s[i]);
            } else {
                assert(samples_le_bytes(s)[4 * i + j] == le_bytes_u32(s.last())[j]);
            }
        }
    }
}

/// A stored chain reads back as its samples: reading what `serialize`
/// wrote gives the chain that was written.
pub proof fn law_block_bytes_round_trip(s: Seq<u32>)
    requires
        s.len() <= u64::MAX,
    ensures
        read_block(block_bytes(s)) == Ok::<Seq<u32>, Seq<char>>(s),
{
    let b = block_bytes(s);
    let n = s.len() as u64;
    lemma_samples_le_bytes_layout(s);
    assert(b.len() == 12 + 4 * s.len());
    assert(b.take(4) =~= block_magic());
    lemma_le_u64_round_trip(n);
    let l = le_bytes_u64(n);
    assert(le_u64_at(b, 4) == le_u64_at(l, 0)) by {
        assert forall|k: int| 0 <= k < 8 implies b[4 + k] == l[k] by {}
    }
    assert((b.len() - 12) / 4 == s.len());
    let got = Seq::new(n as nat, |i: int| le_u32_at(b, 12 + 4 * i));
    assert forall|i: int| 0 <= i < s.len() implies #[trigger] got[i] == s[i] by {
        lemma_le_u32_round_trip(s[i]);
        let w = le_bytes_u32(s[i]);
        assert forall|j: int| 0 <= j < 4 implies b[12 + 4 * i + j] == w[j] by {
            assert(b[12 + 4 * i + j] == samples_le_bytes(s)[4 * i + j]);
        }
        assert(le_u32_at(b, 12 + 4 * i) == le_u32_at(w, 0)) by {
            assert(b[12 + 4 * i] == w[0]);
            assert(b[12 + 4 * i + 1] == w[1]);
            assert(b[12 + 4 * i + 2] == w[2]);
            assert(b[12 + 4 * i + 3] == w[3]);
        }
    }
    assert(got =~= s);
}


/// What was written reads back: after `data` is written at `position`
/// (within the chain), those samples of the chain are `data`, the ones
/// before and after are unchanged, and the chain keeps its length.
pub proof fn law_written_reads_back(chain: Seq<u32>, position: int, data: Seq<u32>)
    requires
        0 <= position,
        position + data.len() <= chain.len(),
    ensures
        written(chain, position, data).len() == chain.len(),
        written(chain, position, data).subrange(position, position + data.len()) == data,
        forall|o: int|
            0 <= o < chain.len() && !(position <= o < position + data.len()) ==> #[trigger] written(
                chain,
                position,
                data,
            )[o] == chain[o],
{
    let w = written(chain, position, data);
    assert(w.subrange(position, position + data.len()) =~= data);
}

} // verus!
