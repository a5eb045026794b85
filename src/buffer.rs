//! The buffer manager: pin-counted, capacity-bounded access to pages read
//! from a block source.
use crate::page::{Page, PAGE_SIZE};
use vstd::prelude::*;

verus! {

/// A failure of the block source.
#[derive(Clone, Copy, Debug, PartialEq, Eq, Structural)]
pub enum IoError {
    /// The backing file could not be opened.
    Open,
    /// Positioning at the block failed.
    Seek,
    /// Reading the block failed.
    Read,
    /// Fewer bytes than asked for were available.
    ShortRead,
}

/// Why a page could not be pinned.
#[derive(Clone, Copy, Debug, PartialEq, Eq, Structural)]
pub enum BufferError {
    /// The block source failed.
    Io(IoError),
    /// The cache is full and every resident page is pinned.
    CacheExhausted,
}

/// Where page bytes come from: reads `len` bytes starting at `byte_offset`.
pub trait BlockSource {
    fn read_block(&mut self, byte_offset: u64, len: usize) -> Result<Vec<u8>, IoError>;
}

/// One cached page, as the contracts see it.
pub struct FrameView {
    pub offset: u32,
    pub bytes: Seq<u8>,
    pub pins: nat,
}

/// The cache, as the contracts see it: resident frames in order of
/// recency (among unpinned frames, the least recently unpinned first),
/// the capacity, and the block reads issued so far, each as its byte
/// offset and length.
pub struct PoolView {
    pub frames: Seq<FrameView>,
    pub capacity: nat,
    pub reads: Seq<(u64, usize)>,
}

/// The byte offset of the block that holds page `off`.
pub open spec fn block_offset_of(off: u32) -> u64 {
    (off as u64 * PAGE_SIZE as u64) as u64
}

/// The read issued for page `off`: one page at its block offset.
pub open spec fn read_request(off: u32) -> (u64, usize) {
    (block_offset_of(off), PAGE_SIZE)
}

/// Computes the byte offset of the block that holds page `offset`.
pub fn block_offset(offset: u32) -> (r: u64)
    ensures
        r == block_offset_of(offset),
        r as int == offset as int * PAGE_SIZE as int,
{
    assert(offset as int * 4096 <= 0xFFFF_FFFFint * 4096) by (nonlinear_arith)
        requires
            offset <= 0xFFFF_FFFFu32,
    ;
    offset as u64 * PAGE_SIZE as u64
}

/// A read result, with the block as a sequence.
pub open spec fn block_view(block: Result<Vec<u8>, IoError>) -> Result<Seq<u8>, IoError> {
    match block {
        Ok(b) => Ok(b@),
        Err(e) => Err(e),
    }
}

/// A pin result, with the page as its bytes.
pub open spec fn page_result(r: Result<&Page, BufferError>) -> Result<Seq<u8>, BufferError> {
    match r {
        Ok(p) => Ok(p.raw_data@),
        Err(e) => Err(e),
    }
}

/// How a block read for page `off`, missing from `v`, decides the result
/// `r` and the frames `frames` that follow: a read error is passed on, a
/// block of the wrong length is a short read, and otherwise the block is
/// cached with one pin (after the eviction that makes room) and returned.
pub open spec fn admit_post(
    v: PoolView,
    off: u32,
    block: Result<Seq<u8>, IoError>,
    frames: Seq<FrameView>,
    r: Result<Seq<u8>, BufferError>,
) -> bool {
    match block {
        Err(e) => r == Err::<Seq<u8>, BufferError>(BufferError::Io(e)) && frames == v.frames,
        Ok(b) => if b.len() != PAGE_SIZE {
            r == Err::<Seq<u8>, BufferError>(BufferError::Io(IoError::ShortRead)) && frames
                == v.frames
        } else {
            r == Ok::<Seq<u8>, BufferError>(b) && frames == v.room_made().push(
                FrameView { offset: off, bytes: b, pins: 1 },
            )
        },
    }
}

/// The position of the first unpinned frame of `frames`, if there is one.
pub open spec fn first_unpinned_of(frames: Seq<FrameView>) -> int {
    choose|i: int|
        0 <= i < frames.len() && frames[i].pins == 0 && forall|j: int|
            0 <= j < i ==> #[trigger] frames[j].pins > 0
}

/// Frame `f` with pin count `pins`.
pub open spec fn with_pins(f: FrameView, pins: nat) -> FrameView {
    FrameView { offset: f.offset, bytes: f.bytes, pins }
}

impl PoolView {
    /// At most `capacity` frames, one per offset, each holding a whole page.
    pub open spec fn wf(self) -> bool {
        &&& self.frames.len() <= self.capacity
        &&& forall|i: int, j: int|
            0 <= i < j < self.frames.len() ==> #[trigger] self.frames[i].offset
                != #[trigger] self.frames[j].offset
        &&& forall|i: int| 0 <= i < self.frames.len() ==> #[trigger] self.frames[i].bytes.len() == PAGE_SIZE
    }

    /// Whether a frame for `off` is resident.
    pub open spec fn holds(self, off: u32) -> bool {
        exists|i: int| 0 <= i < self.frames.len() && #[trigger] self.frames[i].offset == off
    }

    /// The position of the frame for `off`, when one is resident.
    pub open spec fn index_of(self, off: u32) -> int {
        choose|i: int| 0 <= i < self.frames.len() && #[trigger] self.frames[i].offset == off
    }

    /// The pin count of `off`; zero when it is not resident.
    pub open spec fn pin_count(self, off: u32) -> nat {
        if self.holds(off) {
            self.frames[self.index_of(off)].pins
        } else {
            0
        }
    }

    /// Whether position `i` holds the first unpinned frame.
    pub open spec fn is_first_unpinned(self, i: int) -> bool {
        &&& 0 <= i < self.frames.len()
        &&& self.frames[i].pins == 0
        &&& forall|j: int| 0 <= j < i ==> #[trigger] self.frames[j].pins > 0
    }

    /// Whether some frame is unpinned.
    pub open spec fn has_unpinned(self) -> bool {
        exists|i: int| 0 <= i < self.frames.len() && #[trigger] self.frames[i].pins == 0
    }

    /// Whether a new frame can be inserted: below capacity, or something can be evicted.
    pub open spec fn has_room(self) -> bool {
        self.frames.len() < self.capacity || self.has_unpinned()
    }

    /// The frame evicted to make room: the least recently unpinned one.
    pub open spec fn victim(self) -> int {
        first_unpinned_of(self.frames)
    }

    /// The frames that remain once room is made for one more.
    pub open spec fn room_made(self) -> Seq<FrameView> {
        if self.frames.len() < self.capacity {
            self.frames
        } else {
            self.frames.remove(self.victim())
        }
    }
}

/// How `pin(off)` takes the cache from `v` to `w`, with result `r` (the
/// pinned page's bytes on success). A miss with room issues exactly one
/// read, of the page's block, and what it returned decides as `admit_post`
/// says.
pub open spec fn pin_post(
    v: PoolView,
    off: u32,
    w: PoolView,
    r: Result<Seq<u8>, BufferError>,
) -> bool {
    &&& w.capacity == v.capacity
    &&& if v.holds(off) {
        let i = v.index_of(off);
        &&& r == Ok::<Seq<u8>, BufferError>(v.frames[i].bytes)
        &&& w.reads == v.reads
        &&& w.frames == v.frames.update(i, with_pins(v.frames[i], v.frames[i].pins + 1))
    } else if !v.has_room() {
        &&& r == Err::<Seq<u8>, BufferError>(BufferError::CacheExhausted)
        &&& w == v
    } else {
        &&& w.reads == v.reads.push(read_request(off))
        &&& exists|block: Result<Seq<u8>, IoError>| admit_post(v, off, block, w.frames, r)
    }
}

/// How `unpin(off)` takes the cache from `v` to `w`. A frame whose count
/// drops to zero moves to the back, as the most recently unpinned.
pub open spec fn unpin_post(v: PoolView, off: u32, w: PoolView) -> bool {
    &&& w.capacity == v.capacity
    &&& w.reads == v.reads
    &&& if v.holds(off) && v.frames[v.index_of(off)].pins > 0 {
        let i = v.index_of(off);
        let f = v.frames[i];
        if f.pins == 1 {
            w.frames == v.frames.remove(i).push(with_pins(f, 0))
        } else {
            w.frames == v.frames.update(i, with_pins(f, (f.pins - 1) as nat))
        }
    } else {
        w.frames == v.frames
    }
}

/// Page access through pinning: a pinned page stays resident and unchanged
/// until it is unpinned.
pub trait BufferManager {
    /// The cache's state.
    spec fn pool(&self) -> PoolView;

    /// The cache's invariant; it includes `pool().wf()`.
    spec fn well_formed(&self) -> bool;

    /// Pins the page at `offset` (in pages) and returns it.
    fn pin(&mut self, offset: u32) -> (r: Result<&Page, BufferError>)
        requires
            old(self).well_formed(),
            old(self).pool().pin_count(offset) < u64::MAX,
        ensures
            final(self).well_formed(),
            final(self).pool().wf(),
            pin_post(old(self).pool(), offset, final(self).pool(), page_result(r)),
            r is Ok ==> final(self).pool().holds(offset) && final(self).pool().pin_count(offset)
                == old(self).pool().pin_count(offset) + 1,
    ;

    /// Releases one pin of the page at `offset`; does nothing when the page
    /// is not resident or not pinned.
    fn unpin(&mut self, offset: u32)
        requires
            old(self).well_formed(),
        ensures
            final(self).well_formed(),
            final(self).pool().wf(),
            unpin_post(old(self).pool(), offset, final(self).pool()),
            final(self).pool().holds(offset) == old(self).pool().holds(offset),
            final(self).pool().pin_count(offset) == if old(self).pool().pin_count(offset) > 0 {
                (old(self).pool().pin_count(offset) - 1) as nat
            } else {
                0
            },
    ;
}

/// Every cached frame with an unpinned frame somewhere has a first unpinned one.
pub proof fn lemma_first_unpinned_exists(v: PoolView, k: int)
    requires
        0 <= k < v.frames.len(),
        v.frames[k].pins == 0,
    ensures
        v.is_first_unpinned(v.victim()),
    decreases k,
{
    if exists|j: int| 0 <= j < k && #[trigger] v.frames[j].pins == 0 {
        let j = choose|j: int| 0 <= j < k && #[trigger] v.frames[j].pins == 0;
        lemma_first_unpinned_exists(v, j);
    } else {
        assert(v.is_first_unpinned(k));
    }
}

/// In a well-formed cache, the frame at position `k` is the one found for its offset.
pub proof fn lemma_index_of(v: PoolView, k: int)
    requires
        v.wf(),
        0 <= k < v.frames.len(),
    ensures
        v.holds(v.frames[k].offset),
        v.index_of(v.frames[k].offset) == k,
{
    let x = v.frames[k].offset;
    assert(v.holds(x));
    let c = v.index_of(x);
    assert(v.frames[c].offset == x);
    if c < k {
        assert(v.frames[c].offset != v.frames[k].offset);
    } else if c > k {
        assert(v.frames[k].offset != v.frames[c].offset);
    }
}

/// What a successful or failed miss leaves in the cache.
pub proof fn lemma_miss_frames(v: PoolView, off: u32, w: PoolView, r: Result<Seq<u8>, BufferError>)
    requires
        pin_post(v, off, w, r),
        !v.holds(off),
        v.has_room(),
    ensures
        match r {
            Ok(b) => b.len() == PAGE_SIZE && w.frames == v.room_made().push(
                FrameView { offset: off, bytes: b, pins: 1 },
            ),
            Err(e) => e is Io && w.frames == v.frames,
        },
{
    let block = choose|block: Result<Seq<u8>, IoError>| admit_post(v, off, block, w.frames, r);
    assert(admit_post(v, off, block, w.frames, r));
}

/// Pinning the same offset twice, with no unpin between, issues at most one
/// block read: the second pin is served from the cache, with the same bytes.
pub proof fn lemma_repeat_pin_reads_once(
    v0: PoolView,
    x: u32,
    v1: PoolView,
    r1: Result<Seq<u8>, BufferError>,
    v2: PoolView,
    r2: Result<Seq<u8>, BufferError>,
)
    requires
        v0.wf(),
        v1.wf(),
        pin_post(v0, x, v1, r1),
        r1 is Ok,
        pin_post(v1, x, v2, r2),
    ensures
        v1.holds(x),
        v2.reads == v1.reads,
        v1.reads == if v0.holds(x) {
            v0.reads
        } else {
            v0.reads.push(read_request(x))
        },
        r2 == r1,
{
    if v0.holds(x) {
        let i = v0.index_of(x);
        assert(v1.frames[i].offset == x);
        lemma_index_of(v1, i);
    } else {
        lemma_miss_frames(v0, x, v1, r1);
        let k = v1.frames.len() - 1;
        assert(v1.frames[k].offset == x);
        lemma_index_of(v1, k);
    }
}

/// Pinning a page and then unpinning it leaves it resident and unpinned,
/// so eligible for eviction.
pub proof fn lemma_pin_unpin_releases(
    v0: PoolView,
    x: u32,
    v1: PoolView,
    r1: Result<Seq<u8>, BufferError>,
    v2: PoolView,
)
    requires
        v0.wf(),
        v1.wf(),
        v2.wf(),
        v0.pin_count(x) == 0,
        pin_post(v0, x, v1, r1),
        r1 is Ok,
        unpin_post(v1, x, v2),
    ensures
        v2.holds(x),
        v2.pin_count(x) == 0,
{
    if !v0.holds(x) {
        lemma_miss_frames(v0, x, v1, r1);
    }
    let i = if v0.holds(x) {
        v0.index_of(x)
    } else {
        v1.frames.len() - 1
    };
    assert(v1.frames[i].offset == x);
    lemma_index_of(v1, i);
    assert(v1.frames[i].pins == 1);
    let k = v2.frames.len() - 1;
    assert(v2.frames[k].offset == x);
    lemma_index_of(v2, k);
}

/// A pin, of any offset, never evicts a pinned page: each pinned page stays
/// resident with the same bytes and at least the same pin count, and every
/// page that leaves the cache was unpinned.
pub proof fn lemma_pin_keeps_pinned(
    v: PoolView,
    y: u32,
    w: PoolView,
    r: Result<Seq<u8>, BufferError>,
    x: u32,
)
    requires
        v.wf(),
        w.wf(),
        pin_post(v, y, w, r),
        v.pin_count(x) > 0,
    ensures
        w.holds(x),
        w.frames[w.index_of(x)].bytes == v.frames[v.index_of(x)].bytes,
        w.pin_count(x) >= v.pin_count(x),
        forall|i: int|
            0 <= i < v.frames.len() && !w.holds(#[trigger] v.frames[i].offset) ==> v.frames[i].pins
                == 0,
{
    let ix = v.index_of(x);
    assert(v.frames[ix].offset == x);
    if !v.holds(y) && v.has_room() {
        lemma_miss_frames(v, y, w, r);
    }
    if v.holds(y) || !v.has_room() || r is Err {
        assert(w.frames[ix].offset == x);
        lemma_index_of(w, ix);
        assert forall|i: int|
            0 <= i < v.frames.len() && !w.holds(#[trigger] v.frames[i].offset) implies v.frames[i].pins
            == 0 by {
            assert(w.frames[i].offset == v.frames[i].offset);
        }
    } else if v.frames.len() < v.capacity {
        assert(w.frames[ix] == v.frames[ix]);
        lemma_index_of(w, ix);
        assert forall|i: int|
            0 <= i < v.frames.len() && !w.holds(#[trigger] v.frames[i].offset) implies v.frames[i].pins
            == 0 by {
            assert(w.frames[i] == v.frames[i]);
        }
    } else {
        let j = choose|j: int| 0 <= j < v.frames.len() && #[trigger] v.frames[j].pins == 0;
        lemma_first_unpinned_exists(v, j);
        let e = v.victim();
        assert(e != ix);
        let jx = if ix < e {
            ix
        } else {
            ix - 1
        };
        assert(w.frames[jx] == v.frames[ix]);
        lemma_index_of(w, jx);
        assert forall|i: int|
            0 <= i < v.frames.len() && !w.holds(#[trigger] v.frames[i].offset) implies v.frames[i].pins
            == 0 by {
            if i < e {
                assert(w.frames[i] == v.frames[i]);
            } else if i > e {
                assert(w.frames[i - 1] == v.frames[i]);
            }
        }
    }
}

} // verus!
