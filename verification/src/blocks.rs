//! Audio block metadata: codecs, kinds of extended data, time markers, and
//! the bookkeeping of managed block chains.

use vstd::prelude::*;

verus! {

/// Audio file codecs.
#[derive(Debug, Clone, Copy, PartialEq, Eq, Structural)]
pub enum Codec {
    Unknown,
    Vorbis,
    Wav,
    Flac,
    Au,
}

/// The number a codec is stored as.
pub open spec fn codec_number(c: Codec) -> i32 {
    match c {
        Codec::Unknown => -1i32,
        Codec::Vorbis => 0,
        Codec::Wav => 1,
        Codec::Flac => 2,
        Codec::Au => 3,
    }
}

impl Codec {
    /// The number this codec is stored as (`Unknown` is -1).
    pub fn number(self) -> (n: i32)
        ensures
            n == codec_number(self),
    {
        match self {
            Codec::Unknown => -1,
            Codec::Vorbis => 0,
            Codec::Wav => 1,
            Codec::Flac => 2,
            Codec::Au => 3,
        }
    }
}

/// Kinds of data attached to an audio block.
#[derive(Debug, Clone, Copy, PartialEq, Eq, Structural)]
pub enum BlockExtendedDataType {
    NoData,
    ExtraChannel,
    PeaksAvgs,
    MarkerPoints,
}

/// Data attached to an audio block.
pub trait BlockExtendedData {
    fn kind(&self) -> BlockExtendedDataType;
}

/// A marked position in a block, with a value.
#[derive(Debug, Clone, Copy, PartialEq, Eq, Structural)]
pub struct TimeMarker {
    pub offset: usize,
    pub data: i64,
}

/// The time markers of a block, in the order they were added.
#[derive(Debug, Clone, PartialEq, Eq)]
pub struct MarkerPoints {
    pub markers: Vec<TimeMarker>,
}

/// The markers at or before `offset`, last added first.
pub open spec fn markers_before(ms: Seq<TimeMarker>, offset: usize) -> Seq<TimeMarker>
    decreases ms.len(),
{
    if ms.len() == 0 {
        Seq::empty()
    } else if ms.last().offset <= offset {
        seq![ms.last()] + markers_before(ms.drop_last(), offset)
    } else {
        markers_before(ms.drop_last(), offset)
    }
}

/// `nth_before`: the `n`th marker at or before `offset`, counting back
/// from the last added; failing that, the `n`th marker from the end.
pub open spec fn nth_marker_before(ms: Seq<TimeMarker>, n: int, offset: usize) -> Option<TimeMarker> {
    let b = markers_before(ms, offset);
    if 0 <= n < b.len() {
        Some(b[n])
    } else if 0 <= n < ms.len() {
        Some(ms[ms.len() - 1 - n])
    } else {
        None
    }
}

impl MarkerPoints {
    /// No markers.
    pub fn new() -> (m: MarkerPoints)
        ensures
            m.markers@ == Seq::<TimeMarker>::empty(),
    {
        MarkerPoints { markers: Vec::new() }
    }

    /// The number of markers.
    pub fn count(&self) -> (n: usize)
        ensures
            n == self.markers@.len(),
    {
        self.markers.len()
    }

    /// The `n`th marker at or before `offset`, counting back from the last
    /// one added; when there are not that many, the `n`th from the end.
    pub fn nth_before(&self, n: usize, offset: usize) -> (r: Option<TimeMarker>)
        ensures
            r == nth_marker_before(self.markers@, n as int, offset),
    {
        let ghost ms = self.markers@;
        let len = self.markers.len();
        let mut i = len;
        let mut seen: usize = 0;
        assert(ms.take(len as int) =~= ms);
        while i > 0
            invariant
                i <= len,
                len == ms.len(),
                ms == self.markers@,
                seen <= n,
                markers_before(ms, offset).len() >= seen,
                seen == markers_before(ms, offset).len() - markers_before(ms.take(i as int), offset).len(),
                forall|k: int|
                    0 <= k < markers_before(ms.take(i as int), offset).len() ==> markers_before(ms, offset)[seen + k]
                        == #[trigger] markers_before(ms.take(i as int), offset)[k],
            decreases i,
        {
            let m = self.markers[i - 1];
            proof {
                let t = ms.take(i as int);
                assert(t.drop_last() =~= ms.take(i - 1));
                assert(t.last() == m);
            }
            let ghost t = ms.take(i as int);
            let ghost t2 = ms.take(i - 1);
            if m.offset <= offset {
                if seen == n {
                    proof {
                        assert(markers_before(t, offset)[0] == m);
                    }
                    return Some(m);
                }
                proof {
                    assert(markers_before(t, offset) == seq![m] + markers_before(t2, offset));
                    assert forall|k: int| 0 <= k < markers_before(t2, offset).len() implies markers_before(ms, offset)[seen + 1 + k]
                        == #[trigger] markers_before(t2, offset)[k] by {
                        assert(markers_before(t, offset)[k + 1] == markers_before(t2, offset)[k]);
                    }
                }
                seen = seen + 1;
            } else {
                assert(markers_before(t, offset) == markers_before(t2, offset));
            }
            i = i - 1;
        }
        assert(ms.take(0) =~= Seq::<TimeMarker>::empty());
        if n < len {
            Some(self.markers[len - 1 - n])
        } else {
            None
        }
    }
}

impl BlockExtendedData for MarkerPoints {
    fn kind(&self) -> BlockExtendedDataType {
        BlockExtendedDataType::MarkerPoints
    }
}

/// The block summary processor's position: the chunk size it summarises
/// by and how far it got.
pub struct PeaksAvgsProcessor {
    pub chunk_size: usize,
    pub cursor: usize,
}

/// Kinds of managed block chains.
#[derive(Clone, Copy, Debug, PartialEq, Eq, Structural)]
pub enum ManagedChainType {
    NoChain,
    GrowChain,
    PeaksAvgs,
    BlockRead,
    BlockWrite,
    HiPri,
    StripeBlock,
}

/// Whether a managed chain is still worked on or waits for removal.
#[derive(Clone, Copy, Debug, PartialEq, Eq, Structural)]
pub enum ManagedChainStatus {
    Running,
    PendingDelete,
}

/// The statuses of the managed chains; removal is deferred to `collect`.
pub struct BlockManager {
    managers: Vec<ManagedChainStatus>,
}

/// The statuses that remain after `collect`.
pub open spec fn running_only(s: Seq<ManagedChainStatus>) -> Seq<ManagedChainStatus>
    decreases s.len(),
{
    if s.len() == 0 {
        Seq::empty()
    } else if s.last() == ManagedChainStatus::Running {
        running_only(s.drop_last()).push(s.last())
    } else {
        running_only(s.drop_last())
    }
}

impl BlockManager {
    /// The statuses, in the order the chains were added.
    pub closed spec fn statuses(&self) -> Seq<ManagedChainStatus> {
        self.managers@
    }

    /// No managed chains.
    pub fn new() -> (m: BlockManager)
        ensures
            m.statuses() == Seq::<ManagedChainStatus>::empty(),
    {
        BlockManager { managers: Vec::new() }
    }

    /// Adds a running chain and returns its index.
    pub fn add(&mut self) -> (n: usize)
        requires
            old(self).statuses().len() < usize::MAX,
        ensures
            final(self).statuses() == old(self).statuses().push(ManagedChainStatus::Running),
            n == old(self).statuses().len(),
    {
        self.managers.push(ManagedChainStatus::Running);
        self.managers.len() - 1
    }

    /// Marks chain `n` for removal; an unknown index changes nothing.
    pub fn remove(&mut self, n: usize)
        ensures
            n < old(self).statuses().len() ==> final(self).statuses() == old(self).statuses().update(
                n as int,
                ManagedChainStatus::PendingDelete,
            ),
            n >= old(self).statuses().len() ==> final(self).statuses() == old(self).statuses(),
    {
        if n < self.managers.len() {
            self.managers.set(n, ManagedChainStatus::PendingDelete);
        }
    }

    /// Drops the chains marked for removal, keeping the order of the rest.
    pub fn collect(&mut self)
        ensures
            final(self).statuses() == running_only(old(self).statuses()),
    {
        let ghost orig = self.managers@;
        let mut kept: Vec<ManagedChainStatus> = Vec::new();
        let mut i: usize = 0;
        while i < self.managers.len()
            invariant
                i <= self.managers@.len(),
                self.managers@ == orig,
                kept@ == running_only(orig.take(i as int)),
            decreases self.managers@.len() - i,
        {
            proof {
                assert(orig.take(i + 1).drop_last() =~= orig.take(i as int));
            }
            if self.managers[i] == ManagedChainStatus::Running {
                kept.push(ManagedChainStatus::Running);
            }
            i = i + 1;
        }
        assert(orig.take(orig.len() as int) =~= orig);
        self.managers = kept;
    }
}

} // verus!
