//! A buffer manager over any block source, with a fixed capacity and
//! least-recently-unpinned eviction.
use crate::buffer::{
    lemma_first_unpinned_exists, pin_post, unpin_post, with_pins, BlockSource, BufferError,
    BufferManager, FrameView, IoError, PoolView, lemma_index_of, admit_post, block_offset,
    block_view, page_result,
};
use crate::page::{Page, PAGE_SIZE};
use vstd::prelude::*;

verus! {

/// Bookkeeping for one cached page.
#[derive(Clone, Copy, Debug, PartialEq, Eq, Structural)]
struct FrameInfo {
    offset: u32,
    pins: u64,
}

/// Caches the pages read from a block source, at most `capacity` of them.
pub struct SimpleBufferManager<S: BlockSource> {
    source: S,
    infos: Vec<FrameInfo>,
    pages: Vec<Page>,
    capacity: usize,
    reads: Ghost<Seq<(u64, usize)>>,
}

impl<S: BlockSource> SimpleBufferManager<S> {
    /// The cache's state.
    pub closed spec fn pool_of(&self) -> PoolView {
        PoolView {
            frames: Seq::new(
                self.infos@.len(),
                |i: int|
                    FrameView {
                        offset: self.infos@[i].offset,
                        bytes: self.pages@[i].raw_data@,
                        pins: self.infos@[i].pins as nat,
                    },
            ),
            capacity: self.capacity as nat,
            reads: self.reads@,
        }
    }

    /// The cache's invariant.
    pub closed spec fn wf_of(&self) -> bool {
        &&& self.infos@.len() == self.pages@.len()
        &&& self.pool_of().wf()
    }

    /// The invariant that callers see through `well_formed` includes the
    /// pool's own: at most `capacity` frames, one per offset, each a whole page.
    pub proof fn lemma_pool_wf(&self)
        requires
            self.well_formed(),
        ensures
            self.pool().wf(),
    {
    }

    /// The block source that misses are read from.
    pub closed spec fn source_spec(&self) -> S {
        self.source
    }

    /// An empty cache of `capacity` pages over `source`.
    pub fn new(source: S, capacity: usize) -> (r: Self)
        ensures
            r.well_formed(),
            r.pool().frames.len() == 0,
            r.pool().capacity == capacity,
            r.pool().reads == Seq::<(u64, usize)>::empty(),
            r.pool().wf(),
            r.source_spec() == source,
    {
        let r = SimpleBufferManager {
            source,
            infos: Vec::new(),
            pages: Vec::new(),
            capacity,
            reads: Ghost(Seq::empty()),
        };
        assert(r.pool().frames =~= Seq::<FrameView>::empty());
        r
    }

    /// The block source.
    pub fn source(&self) -> (r: &S)
        ensures
            *r == self.source_spec(),
    {
        &self.source
    }

    /// The number of pages the cache may hold.
    pub fn capacity(&self) -> (r: usize)
        ensures
            r == self.pool().capacity,
    {
        self.capacity
    }

    /// The number of resident pages.
    pub fn resident(&self) -> (r: usize)
        requires
            self.well_formed(),
        ensures
            r == self.pool().frames.len(),
    {
        self.infos.len()
    }

    /// The position of the frame for `offset`, if resident.
    fn find(&self, offset: u32) -> (r: Option<usize>)
        requires
            self.well_formed(),
        ensures
            match r {
                Some(i) => self.pool().holds(offset) && i == self.pool().index_of(offset),
                None => !self.pool().holds(offset),
            },
    {
        let n = self.infos.len();
        let mut i: usize = 0;
        while i < n
            invariant
                self.well_formed(),
                n == self.infos@.len(),
                0 <= i <= n,
                forall|j: int| 0 <= j < i ==> self.infos@[j].offset != offset,
            decreases n - i,
        {
            if self.infos[i].offset == offset {
                proof {
                    let v = self.pool();
                    assert(v.frames[i as int].offset == offset);
                    let c = v.index_of(offset);
                    assert(v.frames[c].offset == offset);
                    assert(c == i) by {
                        if c < i {
                            assert(v.frames[c].offset != v.frames[i as int].offset);
                        } else if c > i {
                            assert(v.frames[i as int].offset != v.frames[c].offset);
                        }
                    }
                }
                return Some(i);
            }
            i = i + 1;
        }
        proof {
            let v = self.pool();
            assert forall|j: int| 0 <= j < v.frames.len() implies #[trigger] v.frames[j].offset
                != offset by {
                assert(v.frames[j].offset == self.infos@[j].offset);
            }
        }
        None
    }

    /// The pin count of the page at `offset`; zero when it is not resident.
    pub fn pin_count(&self, offset: u32) -> (r: u64)
        requires
            self.well_formed(),
        ensures
            r == self.pool().pin_count(offset),
    {
        match self.find(offset) {
            Some(i) => self.infos[i].pins,
            None => 0,
        }
    }

    /// Whether the page at `offset` is resident.
    pub fn is_resident(&self, offset: u32) -> (r: bool)
        requires
            self.well_formed(),
        ensures
            r == self.pool().holds(offset),
    {
        self.find(offset).is_some()
    }

    /// The position of the first unpinned frame, if any.
    fn first_unpinned(&self) -> (r: Option<usize>)
        requires
            self.well_formed(),
        ensures
            match r {
                Some(i) => self.pool().has_unpinned() && i == self.pool().victim()
                    && self.pool().is_first_unpinned(i as int),
                None => !self.pool().has_unpinned(),
            },
    {
        let n = self.infos.len();
        let mut i: usize = 0;
        while i < n
            invariant
                self.well_formed(),
                n == self.infos@.len(),
                0 <= i <= n,
                forall|j: int| 0 <= j < i ==> self.infos@[j].pins > 0,
            decreases n - i,
        {
            if self.infos[i].pins == 0 {
                proof {
                    let v = self.pool();
                    assert(v.frames[i as int].pins == 0);
                    assert(v.is_first_unpinned(i as int));
                    lemma_first_unpinned_exists(v, i as int);
                    let c = v.victim();
                    assert(c == i) by {
                        if c < i {
                            assert(v.frames[c].pins > 0);
                        } else if c > i {
                            assert(v.frames[i as int].pins > 0);
                        }
                    }
                }
                return Some(i);
            }
            i = i + 1;
        }
        proof {
            let v = self.pool();
            assert forall|j: int| 0 <= j < v.frames.len() implies #[trigger] v.frames[j].pins
                != 0 by {
                assert(v.frames[j].pins == self.infos@[j].pins);
            }
        }
        None
    }

    /// Whether a page that is not resident can be brought in: the cache is
    /// below capacity, or some resident page is unpinned.
    pub fn has_room(&self) -> (r: bool)
        requires
            self.well_formed(),
        ensures
            r == self.pool().has_room(),
    {
        self.infos.len() < self.capacity || self.first_unpinned().is_some()
    }

    /// Takes the result of reading the block of page `offset`, which is not
    /// resident, and there is room for it: passes a read error on, turns a
    /// block of the wrong length into a short read, and otherwise caches the
    /// block with one pin, evicting the least recently unpinned page when
    /// the cache is full, and returns it.
    pub fn admit_block(&mut self, offset: u32, block: Result<Vec<u8>, IoError>) -> (r: Result<
        &Page,
        BufferError,
    >)
        requires
            old(self).well_formed(),
            !old(self).pool().holds(offset),
            old(self).pool().has_room(),
        ensures
            final(self).well_formed(),
            final(self).pool().wf(),
            final(self).pool().capacity == old(self).pool().capacity,
            final(self).pool().reads == old(self).pool().reads,
            final(self).source_spec() == old(self).source_spec(),
            admit_post(
                old(self).pool(),
                offset,
                block_view(block),
                final(self).pool().frames,
                page_result(r),
            ),
            r is Ok ==> final(self).pool().holds(offset) && final(self).pool().pin_count(offset)
                == 1,
    {
        let ghost mut removed: int = 0;
        let ghost v = self.pool();
        let block = match block {
            Err(e) => {
                assert(self.pool().frames =~= v.frames);
                return Err(BufferError::Io(e));
            },
            Ok(b) => b,
        };
        if block.len() != PAGE_SIZE {
            assert(self.pool().frames =~= v.frames);
            return Err(BufferError::Io(IoError::ShortRead));
        }
        let page = match Page::from_bytes(block.as_slice()) {
            Ok(p) => p,
            Err(_) => {
                return Err(BufferError::Io(IoError::ShortRead));
            },
        };
        assert(block@.subrange(0, PAGE_SIZE as int) =~= block@);
        let full = self.infos.len() >= self.capacity;
        if full {
            let victim = match self.first_unpinned() {
                Some(k) => k,
                None => {
                    return Err(BufferError::CacheExhausted);
                },
            };
            self.infos.remove(victim);
            self.pages.remove(victim);
            assert(self.pool().frames =~= v.frames.remove(victim as int));
            proof {
                removed = victim as int;
            }
        }
        let ghost before_push = self.pool().frames;
        assert(before_push =~= v.room_made());
        self.infos.push(FrameInfo { offset, pins: 1 });
        self.pages.push(page);
        let last = self.pages.len() - 1;
        proof {
            let w = self.pool();
            assert(w.frames =~= v.room_made().push(
                FrameView { offset, bytes: self.pages@[last as int].raw_data@, pins: 1 },
            ));
            assert forall|a: int, b: int|
                0 <= a < b < w.frames.len() implies #[trigger] w.frames[a].offset
                != #[trigger] w.frames[b].offset by {
                if b == last as int {
                    assert(w.frames[a] == before_push[a]);
                    if full {
                        if a < removed {
                            assert(before_push[a] == v.frames[a]);
                        } else {
                            assert(before_push[a] == v.frames[a + 1]);
                        }
                    }
                } else {
                    assert(w.frames[a] == before_push[a]);
                    assert(w.frames[b] == before_push[b]);
                }
            }
        }
        proof {
            lemma_index_of(self.pool(), last as int);
        }
        Ok(&self.pages[last])
    }
}

impl<S: BlockSource> BufferManager for SimpleBufferManager<S> {
    open spec fn pool(&self) -> PoolView {
        self.pool_of()
    }

    open spec fn well_formed(&self) -> bool {
        self.wf_of()
    }

    fn pin(&mut self, offset: u32) -> (r: Result<&Page, BufferError>) {
        match self.find(offset) {
            Some(i) => {
                let ghost v = self.pool();
                let info = self.infos[i];
                self.infos.set(i, FrameInfo { offset, pins: info.pins + 1 });
                assert(self.pool().frames =~= v.frames.update(
                    i as int,
                    with_pins(v.frames[i as int], v.frames[i as int].pins + 1),
                ));
                proof {
                    lemma_index_of(self.pool(), i as int);
                }
                return Ok(&self.pages[i]);
            },
            None => {},
        }
        if !self.has_room() {
            return Err(BufferError::CacheExhausted);
        }
        let ghost v = self.pool();
        let byte_offset = block_offset(offset);
        self.reads = Ghost(self.reads@.push((byte_offset, PAGE_SIZE)));
        let block = self.source.read_block(byte_offset, PAGE_SIZE);
        proof {
            let u = self.pool();
            assert(u.frames =~= v.frames);
            assert(u.room_made() == v.room_made());
            assert forall|b: Result<Seq<u8>, IoError>, fr: Seq<FrameView>, rr: Result<
                Seq<u8>,
                BufferError,
            >| #[trigger] admit_post(u, offset, b, fr, rr) implies admit_post(
                v,
                offset,
                b,
                fr,
                rr,
            ) by {}
        }
        self.admit_block(offset, block)
    }

    fn unpin(&mut self, offset: u32) {
        let ghost v = self.pool();
        match self.find(offset) {
            None => {},
            Some(i) => {
                let info = self.infos[i];
                if info.pins == 1 {
                    self.infos.remove(i);
                    let page = self.pages.remove(i);
                    self.infos.push(FrameInfo { offset, pins: 0 });
                    self.pages.push(page);
                    proof {
                        let w = self.pool();
                        let f = v.frames[i as int];
                        assert(w.frames =~= v.frames.remove(i as int).push(with_pins(f, 0)));
                        lemma_index_of(w, w.frames.len() - 1);
                        assert forall|a: int, b: int|
                            0 <= a < b < w.frames.len() implies #[trigger] w.frames[a].offset
                            != #[trigger] w.frames[b].offset by {
                            if a < i {
                                assert(w.frames[a] == v.frames[a]);
                            } else {
                                assert(w.frames[a] == v.frames[a + 1]);
                            }
                            if b < w.frames.len() - 1 {
                                if b < i {
                                    assert(w.frames[b] == v.frames[b]);
                                } else {
                                    assert(w.frames[b] == v.frames[b + 1]);
                                }
                            }
                        }
                        assert forall|a: int| 0 <= a < w.frames.len() implies #[trigger] w.frames[a].bytes.len() == PAGE_SIZE by {
                            if a < w.frames.len() - 1 {
                                if a < i {
                                    assert(w.frames[a] == v.frames[a]);
                                } else {
                                    assert(w.frames[a] == v.frames[a + 1]);
                                }
                            }
                        }
                    }
                } else if info.pins > 1 {
                    self.infos.set(i, FrameInfo { offset, pins: info.pins - 1 });
                    assert(self.pool().frames =~= v.frames.update(
                        i as int,
                        with_pins(v.frames[i as int], (v.frames[i as int].pins - 1) as nat),
                    ));
                    proof {
                        lemma_index_of(self.pool(), i as int);
                    }
                }
            },
        }
    }
}

} // verus!
