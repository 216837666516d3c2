//! A bump allocator for the strings of one compilation: a chain of regions
//! that only grow, and handles to the strings in them. A string that was
//! stored stays where it is and as it is for as long as the arena lives.

use vstd::prelude::*;
use vstd::slice::*;

use crate::text::push_bytes;

verus! {

/// The least number of bytes that a region can hold.
pub const ARENA_REGION_DEFAULT_CAP: usize = 8192;

/// A region of an arena: a buffer that holds at most `capacity` bytes.
pub struct Region {
    pub capacity: usize,
    pub data: Vec<u8>,
}

pub struct Arena {
    pub regions: Vec<Region>,
}

/// The place of a string in an arena.
#[derive(Clone, Copy, Debug, PartialEq, Eq, Structural)]
pub struct Handle {
    /// the region that holds the string
    pub region: usize,
    /// the index of its first byte in the region
    pub start: usize,
    /// the number of its bytes
    pub len: usize,
}

pub struct RegionView {
    pub capacity: usize,
    pub data: Seq<u8>,
}

impl View for Region {
    type V = RegionView;

    open spec fn view(&self) -> RegionView {
        RegionView { capacity: self.capacity, data: self.data@ }
    }
}

impl View for Arena {
    type V = Seq<RegionView>;

    open spec fn view(&self) -> Seq<RegionView> {
        self.regions@.map_values(|r: Region| r@)
    }
}

/// The capacity of a region that is made for a string of `size` bytes.
pub open spec fn region_capacity(size: nat) -> nat {
    if ARENA_REGION_DEFAULT_CAP < size {
        size
    } else {
        ARENA_REGION_DEFAULT_CAP as nat
    }
}

/// No region holds more than its capacity.
pub open spec fn arena_wf(regions: Seq<RegionView>) -> bool {
    forall|i: int| 0 <= i < regions.len() ==> (#[trigger] regions[i]).data.len() <= regions[i].capacity
}

/// Whether `h` is the place of a string in the arena.
pub open spec fn holds(regions: Seq<RegionView>, h: Handle) -> bool {
    h.region < regions.len() && h.start + h.len <= regions[h.region as int].data.len()
}

/// The string at the place `h`.
pub open spec fn text_at(regions: Seq<RegionView>, h: Handle) -> Seq<u8> {
    regions[h.region as int].data.subrange(h.start as int, h.start + h.len)
}

/// Whether a string of `size` bytes fits into the last region.
pub open spec fn fits(regions: Seq<RegionView>, size: nat) -> bool {
    regions.len() > 0 && regions.last().data.len() + size <= regions.last().capacity
}

/// The arena after a string was stored: at the end of the last region
/// where it fits there, else in a new region behind the others.
pub open spec fn stored(regions: Seq<RegionView>, s: Seq<u8>) -> Seq<RegionView> {
    if fits(regions, s.len()) {
        regions.update(
            regions.len() - 1,
            RegionView { data: regions.last().data + s, ..regions.last() },
        )
    } else {
        regions.push(RegionView { capacity: region_capacity(s.len()) as usize, data: s })
    }
}

/// The place of a string that is stored next.
pub open spec fn next_handle(regions: Seq<RegionView>, s: Seq<u8>) -> Handle {
    if fits(regions, s.len()) {
        Handle {
            region: (regions.len() - 1) as usize,
            start: regions.last().data.len() as usize,
            len: s.len() as usize,
        }
    } else {
        Handle { region: regions.len() as usize, start: 0, len: s.len() as usize }
    }
}

/// Storing keeps what is stored. After a string was stored, the arena
/// holds it at the place that was handed out, and every string that it
/// held before is still held, at its place and unchanged.
pub proof fn lemma_stored(regions: Seq<RegionView>, s: Seq<u8>)
    requires
        arena_wf(regions),
        regions.len() < usize::MAX,
        s.len() <= usize::MAX,
    ensures
        arena_wf(stored(regions, s)),
        holds(stored(regions, s), next_handle(regions, s)),
        text_at(stored(regions, s), next_handle(regions, s)) == s,
        forall|h: Handle|
            holds(regions, h) ==> holds(stored(regions, s), h) && text_at(stored(regions, s), h)
                == text_at(regions, h),
        stored(regions, s).len() == if fits(regions, s.len()) {
            regions.len()
        } else {
            regions.len() + 1
        },
{
    let after = stored(regions, s);
    if fits(regions, s.len()) {
        lemma_stored_fits(regions, s);
    } else {
        lemma_stored_new(regions, s);
    }
    assert forall|k: Handle| holds(regions, k) implies holds(after, k) && text_at(after, k)
        == text_at(regions, k) by {
        assert(text_at(after, k) =~= text_at(regions, k));
    }
}

impl Arena {
    /// No region holds more than its capacity.
    pub open spec fn wf(&self) -> bool {
        arena_wf(self@)
    }

    /// An arena without regions.
    pub fn new() -> (a: Arena)
        ensures
            a@ == Seq::<RegionView>::empty(),
            a.wf(),
    {
        let a = Arena { regions: Vec::new() };
        assert(a@ =~= Seq::<RegionView>::empty());
        a
    }

    /// The number of regions.
    pub fn count(&self) -> (n: usize)
        ensures
            n == self@.len(),
    {
        self.regions.len()
    }

    /// Stores a copy of `s` and hands out its place.
    pub fn strdup(&mut self, s: &[u8]) -> (h: Handle)
        requires
            old(self).wf(),
        ensures
            final(self)@ == stored(old(self)@, s@),
            h == next_handle(old(self)@, s@),
            final(self).wf(),
            holds(final(self)@, h),
            text_at(final(self)@, h) == s@,
    {
        let n = self.regions.len();
        let size = s.len();
        if n > 0 {
            assert(self@[n - 1] == self.regions@[n - 1]@);
            assert(self@[n - 1].data.len() <= self@[n - 1].capacity);
        }
        if n > 0 && size <= self.regions[n - 1].capacity - self.regions[n - 1].data.len() {
            let start = self.regions[n - 1].data.len();
            let mut last = match self.regions.pop() {
                Some(last) => last,
                None => Region { capacity: 0, data: Vec::new() },
            };
            push_bytes(&mut last.data, s);
            self.regions.push(last);
            assert(self@ =~= stored(old(self)@, s@));
            proof {
                lemma_stored_fits(old(self)@, s@);
            }
            Handle { region: n - 1, start, len: size }
        } else {
            let cap = if ARENA_REGION_DEFAULT_CAP < size {
                size
            } else {
                ARENA_REGION_DEFAULT_CAP
            };
            let mut data: Vec<u8> = Vec::new();
            push_bytes(&mut data, s);
            assert(data@ =~= s@);
            self.regions.push(Region { capacity: cap, data });
            let count = self.regions.len();
            assert(self@ =~= stored(old(self)@, s@));
            proof {
                lemma_stored_new(old(self)@, s@);
            }
            Handle { region: n, start: 0, len: size }
        }
    }

    /// The string at the place `h`.
    pub fn get(&self, h: Handle) -> (s: &[u8])
        requires
            holds(self@, h),
        ensures
            s@ == text_at(self@, h),
    {
        assert(self@[h.region as int] == self.regions@[h.region as int]@);
        let data = self.regions[h.region].data.as_slice();
        let n = data.len();
        slice_subrange(data, h.start, h.start + h.len)
    }
}

/// What holds of the arena after a string was stored in its last region.
pub proof fn lemma_stored_fits(regions: Seq<RegionView>, s: Seq<u8>)
    requires
        arena_wf(regions),
        fits(regions, s.len()),
        regions.len() <= usize::MAX,
    ensures
        arena_wf(stored(regions, s)),
        holds(stored(regions, s), next_handle(regions, s)),
        text_at(stored(regions, s), next_handle(regions, s)) == s,
{
    let after = stored(regions, s);
    let h = next_handle(regions, s);
    assert(regions.last().data.len() <= regions.last().capacity);
    assert(h.start == regions.last().data.len());
    assert(h.len == s.len());
    assert(after[h.region as int].data == regions.last().data + s);
    assert(text_at(after, h) =~= s);
    assert forall|i: int| 0 <= i < after.len() implies (#[trigger] after[i]).data.len()
        <= after[i].capacity by {
        if i < regions.len() - 1 {
            assert(regions[i].data.len() <= regions[i].capacity);
        }
    }
}

/// What holds of the arena after a string was stored in a new region.
pub proof fn lemma_stored_new(regions: Seq<RegionView>, s: Seq<u8>)
    requires
        arena_wf(regions),
        !fits(regions, s.len()),
        regions.len() < usize::MAX,
        s.len() <= usize::MAX,
    ensures
        arena_wf(stored(regions, s)),
        holds(stored(regions, s), next_handle(regions, s)),
        text_at(stored(regions, s), next_handle(regions, s)) == s,
{
    let after = stored(regions, s);
    assert(text_at(after, next_handle(regions, s)) =~= s);
    assert forall|i: int| 0 <= i < after.len() implies (#[trigger] after[i]).data.len()
        <= after[i].capacity by {
        if i < regions.len() {
            assert(regions[i].data.len() <= regions[i].capacity);
        }
    }
}

} // verus!
