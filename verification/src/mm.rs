//! User address spaces: mapped regions, demand paging, and the loading of
//! an executable image into a fresh space.

use vstd::prelude::*;
use vstd::utf8::encode_utf8;

use crate::config::{PAGE_SIZE_4K, USER_SPACE_BASE, USER_SPACE_SIZE, USER_STACK_SIZE,
    USER_STACK_TOP};
use crate::loader::{parse_elf, spec_auxv, spec_e_entry, spec_e_phnum, spec_flags_of,
    spec_load_error, spec_load_idxs, spec_p_filesz, spec_p_flags, spec_p_offset, spec_seg_offset,
    spec_seg_size, spec_seg_start, spec_u64_le, AuxKey, AuxvEntry, Arch, LoadError};

verus! {

/// Permission and accessibility bits of one mapping, as the page table
/// will carry them.
#[derive(Clone, Copy, PartialEq, Eq, Structural, Debug)]
pub struct MappingFlags {
    /// The mapping may be read.
    pub read: bool,
    /// The mapping may be written.
    pub write: bool,
    /// The mapping may be executed.
    pub execute: bool,
    /// The mapping is accessible from user mode.
    pub user: bool,
}

impl MappingFlags {
    /// True when every access right of `access` is granted by `self`.
    pub open spec fn spec_contains(self, access: MappingFlags) -> bool {
        &&& access.read ==> self.read
        &&& access.write ==> self.write
        &&& access.execute ==> self.execute
        &&& access.user ==> self.user
    }

    /// True when every access right of `access` is granted by `self`.
    pub fn contains(&self, access: &MappingFlags) -> (r: bool)
        ensures
            r == self.spec_contains(*access),
    {
        (!access.read || self.read) && (!access.write || self.write)
            && (!access.execute || self.execute) && (!access.user || self.user)
    }
}

/// `addr` rounded down to a page boundary.
pub open spec fn spec_align_down(addr: int) -> int {
    addr - addr % (PAGE_SIZE_4K as int)
}

/// `addr` rounded up to a page boundary.
pub open spec fn spec_align_up(addr: int) -> int {
    spec_align_down(addr + PAGE_SIZE_4K - 1)
}

/// Rounds `addr` down to a page boundary.
pub fn align_down_4k(addr: usize) -> (r: usize)
    ensures
        r == spec_align_down(addr as int),
        r <= addr,
        r % PAGE_SIZE_4K == 0,
{
    addr - addr % PAGE_SIZE_4K
}

/// Rounds `addr` up to a page boundary.
pub fn align_up_4k(addr: usize) -> (r: usize)
    requires
        addr + PAGE_SIZE_4K - 1 <= usize::MAX,
    ensures
        r == spec_align_up(addr as int),
        addr <= r,
        r % PAGE_SIZE_4K == 0,
{
    let bumped: usize = addr + (PAGE_SIZE_4K - 1);
    bumped - bumped % PAGE_SIZE_4K
}

/// Offset of `addr` within its page.
pub fn align_offset_4k(addr: usize) -> (r: usize)
    ensures
        r == addr as int % (PAGE_SIZE_4K as int),
        r < PAGE_SIZE_4K,
        addr - r == spec_align_down(addr as int),
{
    addr % PAGE_SIZE_4K
}

/// Why a mapping operation failed.
#[derive(Clone, Copy, PartialEq, Eq, Structural, Debug)]
pub enum MapError {
    /// Part of the requested range is already mapped.
    MapConflict,
    /// The requested range does not fit the address space.
    OutOfAddressSpace,
    /// The requested range is empty or not page-aligned.
    InvalidRange,
    /// The accessed range is not backed by mapped memory.
    BadAddress,
}

/// One mapped region of an address space: a page-aligned virtual range,
/// its mapping flags, which of its pages already have physical backing,
/// and the bytes of that backing (fresh pages read as zero).
pub struct MemRegion {
    /// Page-aligned start virtual address.
    pub start: usize,
    /// Page-aligned size in bytes.
    pub size: usize,
    /// Mapping flags of every page of the region.
    pub flags: MappingFlags,
    /// Whether each page of the region has physical backing yet.
    pub backed: Vec<bool>,
    /// The contents of the region's backing memory.
    pub data: Vec<u8>,
}

/// Well-formedness of one region within the bounds of its address space.
pub open spec fn spec_wf_region(r: MemRegion, base: int, end: int) -> bool {
    &&& base <= r.start
    &&& r.start + r.size <= end
    &&& r.start as int % (PAGE_SIZE_4K as int) == 0
    &&& r.size as int % (PAGE_SIZE_4K as int) == 0
    &&& r.size > 0
    &&& r.data@.len() == r.size
    &&& r.backed@.len() == r.size as int / (PAGE_SIZE_4K as int)
}

/// True when the ranges `[a_start, a_start + a_size)` and
/// `[b_start, b_start + b_size)` share an address.
pub open spec fn spec_overlap(a_start: int, a_size: int, b_start: int, b_size: int) -> bool {
    a_start < b_start + b_size && b_start < a_start + a_size
}

/// The virtual address space of one user process: a page-table root's
/// worth of mapped regions within a fixed base/end range.
pub struct AddressSpace {
    /// Lowest virtual address of the space.
    pub base: usize,
    /// One past the highest virtual address of the space.
    pub end: usize,
    /// The mapped regions, in mapping order.
    pub regions: Vec<MemRegion>,
}

impl AddressSpace {
    /// The invariant of an address space: aligned bounds, well-formed
    /// regions inside them, and no two regions sharing an address.
    pub open spec fn wf(self) -> bool {
        &&& self.base as int % (PAGE_SIZE_4K as int) == 0
        &&& self.end as int % (PAGE_SIZE_4K as int) == 0
        &&& self.base <= self.end
        &&& forall|i: int|
            0 <= i < self.regions@.len() ==> spec_wf_region(
                #[trigger] self.regions@[i],
                self.base as int,
                self.end as int,
            )
        &&& forall|i: int, j: int|
            0 <= i < self.regions@.len() && 0 <= j < self.regions@.len() && i != j
                ==> !spec_overlap(
                (#[trigger] self.regions@[i]).start as int,
                self.regions@[i].size as int,
                (#[trigger] self.regions@[j]).start as int,
                self.regions@[j].size as int,
            )
    }

    /// True when `[start, start + size)` overlaps some region.
    pub open spec fn spec_conflicts(self, start: int, size: int) -> bool {
        exists|i: int|
            0 <= i < self.regions@.len() && spec_overlap(
                (#[trigger] self.regions@[i]).start as int,
                self.regions@[i].size as int,
                start,
                size,
            )
    }

    /// True when `addr` lies in some region.
    pub open spec fn spec_is_mapped(self, addr: int) -> bool {
        exists|i: int|
            0 <= i < self.regions@.len() && (#[trigger] self.regions@[i]).start <= addr
                < self.regions@[i].start + self.regions@[i].size
    }

    /// The index of the region holding `addr`; meaningful only when
    /// `spec_is_mapped(addr)`.
    pub open spec fn spec_region_idx(self, addr: int) -> int {
        choose|i: int|
            0 <= i < self.regions@.len() && (#[trigger] self.regions@[i]).start <= addr
                < self.regions@[i].start + self.regions@[i].size
    }

    /// The byte visible at `addr`; meaningful only when mapped.
    pub open spec fn spec_byte_at(self, addr: int) -> u8 {
        let r = self.regions@[self.spec_region_idx(addr)];
        r.data@[addr - r.start]
    }

    /// Reserves a fresh, empty address space over `[base, base + size)`.
    ///
    /// Fails with `OutOfAddressSpace` when the bounds are not page-aligned
    /// or do not fit the machine word.
    pub fn new(base: usize, size: usize) -> (r: Result<AddressSpace, MapError>)
        ensures
            match r {
                Ok(s) => {
                    &&& base % PAGE_SIZE_4K == 0
                    &&& size % PAGE_SIZE_4K == 0
                    &&& base + size <= usize::MAX
                    &&& s.wf()
                    &&& s.base == base
                    &&& s.end == base + size
                    &&& s.regions@.len() == 0
                },
                Err(e) => {
                    &&& e == MapError::OutOfAddressSpace
                    &&& !(base % PAGE_SIZE_4K == 0 && size % PAGE_SIZE_4K == 0 && base + size
                        <= usize::MAX)
                },
            },
    {
        if base % PAGE_SIZE_4K != 0 || size % PAGE_SIZE_4K != 0 {
            return Err(MapError::OutOfAddressSpace);
        }
        match base.checked_add(size) {
            Some(end) => Ok(AddressSpace { base, end, regions: Vec::new() }),
            None => Err(MapError::OutOfAddressSpace),
        }
    }

    /// The error `map_alloc` answers a request with, or `None` when the
    /// request succeeds: unaligned or empty ranges are invalid, ranges
    /// outside the space do not fit, and ranges touching an existing
    /// mapping conflict.
    pub open spec fn spec_map_error(self, start: int, size: int) -> Option<MapError> {
        if !(start % (PAGE_SIZE_4K as int) == 0 && size % (PAGE_SIZE_4K as int) == 0 && size > 0) {
            Some(MapError::InvalidRange)
        } else if !(self.base <= start && start + size <= self.end) {
            Some(MapError::OutOfAddressSpace)
        } else if self.spec_conflicts(start, size) {
            Some(MapError::MapConflict)
        } else {
            None
        }
    }

    /// True when `r` is a fresh region over `[start, start + size)` with
    /// flags `flags`: zero-filled, and backed everywhere or nowhere as
    /// `populate` asks.
    pub open spec fn spec_fresh_region(
        r: MemRegion,
        start: int,
        size: int,
        flags: MappingFlags,
        populate: bool,
    ) -> bool {
        &&& r.start == start
        &&& r.size == size
        &&& r.flags == flags
        &&& r.data@ == Seq::new(size as nat, |i: int| 0u8)
        &&& r.backed@ == Seq::new((size / (PAGE_SIZE_4K as int)) as nat, |i: int| populate)
    }

    /// Maps an allocation-backed region over `[start, start + size)`.
    ///
    /// With `populate` the backing pages exist at once; without it they
    /// appear on first touch, through `handle_page_fault`.  On any error
    /// the space is unchanged.
    #[verifier::loop_isolation(false)]
    pub fn map_alloc(
        &mut self,
        start: usize,
        size: usize,
        flags: MappingFlags,
        populate: bool,
    ) -> (r: Result<(), MapError>)
        requires
            old(self).wf(),
        ensures
            final(self).wf(),
            final(self).base == old(self).base,
            final(self).end == old(self).end,
            match r {
                Ok(()) => {
                    &&& old(self).spec_map_error(start as int, size as int) is None
                    &&& final(self).regions@.len() == old(self).regions@.len() + 1
                    &&& final(self).regions@.subrange(0, old(self).regions@.len() as int)
                        == old(self).regions@
                    &&& Self::spec_fresh_region(
                        final(self).regions@.last(),
                        start as int,
                        size as int,
                        flags,
                        populate,
                    )
                },
                Err(e) => {
                    &&& old(self).spec_map_error(start as int, size as int) == Some(e)
                    &&& *final(self) == *old(self)
                },
            },
    {
        if start % PAGE_SIZE_4K != 0 || size % PAGE_SIZE_4K != 0 || size == 0 {
            return Err(MapError::InvalidRange);
        }
        if start < self.base || start > self.end {
            return Err(MapError::OutOfAddressSpace);
        }
        let room: usize = self.end - start;
        if size > room {
            return Err(MapError::OutOfAddressSpace);
        }
        let n = self.regions.len();
        let mut i: usize = 0;
        while i < n
            invariant
                n == self.regions@.len(),
                forall|j: int|
                    0 <= j < i ==> !spec_overlap(
                        (#[trigger] self.regions@[j]).start as int,
                        self.regions@[j].size as int,
                        start as int,
                        size as int,
                    ),
            decreases n - i,
        {
            let r_start = self.regions[i].start;
            let r_size = self.regions[i].size;
            if start < r_start + r_size && r_start < start + size {
                return Err(MapError::MapConflict);
            }
            i = i + 1;
        }
        let data: Vec<u8> = vec![0u8; size];
        let backed: Vec<bool> = vec![populate; size / PAGE_SIZE_4K];
        proof {
            assert(data@ =~= Seq::new(size as nat, |i: int| 0u8));
            assert(backed@ =~= Seq::new((size as int / (PAGE_SIZE_4K as int)) as nat, |i: int| populate));
        }
        self.regions.push(MemRegion { start, size, flags, backed, data });
        proof {
            assert(final(self).regions@.subrange(0, old(self).regions@.len() as int)
                =~= old(self).regions@);
        }
        Ok(())
    }

    /// Two regions of a well-formed space holding the same address are the
    /// same region.
    pub proof fn lemma_region_idx_unique(self, addr: int, i: int, j: int)
        requires
            self.wf(),
            0 <= i < self.regions@.len(),
            0 <= j < self.regions@.len(),
            self.regions@[i].start <= addr < self.regions@[i].start + self.regions@[i].size,
            self.regions@[j].start <= addr < self.regions@[j].start + self.regions@[j].size,
        ensures
            i == j,
    {
    }

    /// Finds the region holding `addr`, if any.
    pub fn find_region(&self, addr: usize) -> (r: Option<usize>)
        requires
            self.wf(),
        ensures
            match r {
                Some(i) => {
                    &&& i < self.regions@.len()
                    &&& self.regions@[i as int].start <= addr < self.regions@[i as int].start
                        + self.regions@[i as int].size
                    &&& self.spec_is_mapped(addr as int)
                    &&& self.spec_region_idx(addr as int) == i as int
                },
                None => !self.spec_is_mapped(addr as int),
            },
    {
        let n = self.regions.len();
        let mut i: usize = 0;
        while i < n
            invariant
                n == self.regions@.len(),
                self.wf(),
                forall|j: int|
                    0 <= j < i ==> !((#[trigger] self.regions@[j]).start <= addr
                        < self.regions@[j].start + self.regions@[j].size),
            decreases n - i,
        {
            let r_start = self.regions[i].start;
            let r_size = self.regions[i].size;
            if r_start <= addr && addr - r_start < r_size {
                proof {
                    self.lemma_region_idx_unique(
                        addr as int,
                        i as int,
                        self.spec_region_idx(addr as int),
                    );
                }
                return Some(i);
            }
            i = i + 1;
        }
        None
    }

    /// The index of the first region overlapping `[start, start + size)`
    /// among the first `n`, if any.
    pub open spec fn spec_first_overlap(rs: Seq<MemRegion>, n: int, start: int, size: int)
        -> Option<int>
        decreases n,
    {
        if n <= 0 {
            None
        } else if Self::spec_first_overlap(rs, n - 1, start, size) is Some {
            Self::spec_first_overlap(rs, n - 1, start, size)
        } else if spec_overlap(rs[n - 1].start as int, rs[n - 1].size as int, start, size) {
            Some(n - 1)
        } else {
            None
        }
    }

    /// A found first overlap lies in range and overlaps.
    pub proof fn lemma_first_overlap_props(rs: Seq<MemRegion>, n: int, start: int, size: int)
        ensures
            match Self::spec_first_overlap(rs, n, start, size) {
                Some(i) => 0 <= i < n && spec_overlap(
                    rs[i].start as int,
                    rs[i].size as int,
                    start,
                    size,
                ),
                None => forall|i: int|
                    0 <= i < n ==> !spec_overlap(
                        (#[trigger] rs[i]).start as int,
                        rs[i].size as int,
                        start,
                        size,
                    ),
            },
        decreases n,
    {
        if n > 0 {
            Self::lemma_first_overlap_props(rs, n - 1, start, size);
        }
    }

    /// Conditions under which the free-area probe is meaningful: a
    /// non-empty request and regions that end inside the space.
    pub open spec fn spec_probe_pre(rs: Seq<MemRegion>, size: int, end: int) -> bool {
        &&& size >= 1
        &&& forall|i: int|
            0 <= i < rs.len() ==> (#[trigger] rs[i]).start + rs[i].size <= end
    }

    /// The deterministic free-area search: starting at `cand`, skip past
    /// the first overlapping region until the range fits nothing overlaps,
    /// or the space's end is passed.
    pub open spec fn spec_probe(rs: Seq<MemRegion>, cand: int, size: int, end: int) -> Option<int>
        decreases end - cand
            when Self::spec_probe_pre(rs, size, end)
            via Self::probe_decreases
    {
        if cand + size > end {
            None
        } else {
            match Self::spec_first_overlap(rs, rs.len() as int, cand, size) {
                None => Some(cand),
                Some(i) => Self::spec_probe(rs, rs[i].start + rs[i].size, size, end),
            }
        }
    }

    #[via_fn]
    proof fn probe_decreases(rs: Seq<MemRegion>, cand: int, size: int, end: int) {
        Self::lemma_first_overlap_props(rs, rs.len() as int, cand, size);
    }

    /// Where the search for a free area starts: the page above the hint,
    /// but never below the space's base.
    pub open spec fn spec_probe_start(self, hint: int) -> int {
        let a = if hint % (PAGE_SIZE_4K as int) == 0 {
            hint
        } else {
            hint - hint % (PAGE_SIZE_4K as int) + PAGE_SIZE_4K
        };
        if a < self.base {
            self.base as int
        } else {
            a
        }
    }

    /// Between two distinct multiples of the page size lies a whole page.
    proof fn lemma_multiple_step(a: int, e: int)
        by (nonlinear_arith)
        requires
            a % 4096 == 0,
            e % 4096 == 0,
            a < e,
        ensures
            a + 4096 <= e,
    {
    }

    /// Searches for a free, page-aligned range of `size` bytes at or
    /// after `hint`.
    ///
    /// Returns exactly what the probe `spec_probe` finds; a found range
    /// lies inside the space and overlaps no existing region.
    #[verifier::loop_isolation(false)]
    pub fn find_free_area(&self, hint: usize, size: usize) -> (r: Option<usize>)
        requires
            self.wf(),
            1 <= size,
        ensures
            match r {
                Some(a) => {
                    &&& Some(a as int) == Self::spec_probe(
                        self.regions@,
                        self.spec_probe_start(hint as int),
                        size as int,
                        self.end as int,
                    )
                    &&& self.base <= a
                    &&& hint <= a
                    &&& a + size <= self.end
                    &&& a % PAGE_SIZE_4K == 0
                    &&& !self.spec_conflicts(a as int, size as int)
                },
                None => Self::spec_probe(
                    self.regions@,
                    self.spec_probe_start(hint as int),
                    size as int,
                    self.end as int,
                ) is None,
            },
    {
        if hint > self.end {
            return None;
        }
        let rem: usize = hint % PAGE_SIZE_4K;
        let aligned_hint: usize = if rem == 0 {
            hint
        } else {
            proof {
                assert((hint - rem) % 4096 == 0) by (nonlinear_arith)
                    requires
                        rem == hint as int % 4096,
                        hint >= 0,
                ;
                assert(hint < self.end) by {
                    assert(self.end as int % (PAGE_SIZE_4K as int) == 0);
                };
                Self::lemma_multiple_step(hint as int - rem, self.end as int);
            }
            hint - rem + PAGE_SIZE_4K
        };
        let mut cand: usize = if aligned_hint < self.base {
            self.base
        } else {
            aligned_hint
        };
        proof {
            assert(cand as int % 4096 == 0) by (nonlinear_arith)
                requires
                    cand as int == self.spec_probe_start(hint as int) && self.base as int % 4096
                        == 0 && hint >= 0 && cand as int == if (if hint as int % 4096 == 0 {
                        hint as int
                    } else {
                        hint as int - hint as int % 4096 + 4096
                    }) < self.base {
                        self.base as int
                    } else {
                        (if hint as int % 4096 == 0 {
                            hint as int
                        } else {
                            hint as int - hint as int % 4096 + 4096
                        })
                    },
            ;
        }
        loop
            invariant
                self.wf(),
                1 <= size,
                hint <= cand,
                self.base <= cand <= self.end,
                cand % PAGE_SIZE_4K == 0,
                Self::spec_probe(
                    self.regions@,
                    self.spec_probe_start(hint as int),
                    size as int,
                    self.end as int,
                ) == Self::spec_probe(self.regions@, cand as int, size as int, self.end as int),
            decreases self.end - cand,
        {
            proof {
                assert(Self::spec_probe_pre(self.regions@, size as int, self.end as int));
            }
            if size > self.end - cand {
                return None;
            }
            let n = self.regions.len();
            let mut i: usize = 0;
            let mut found: Option<usize> = None;
            while i < n
                invariant
                    i <= n,
                    n == self.regions@.len(),
                    self.wf(),
                    match found {
                        Some(f) => Self::spec_first_overlap(
                            self.regions@,
                            i as int,
                            cand as int,
                            size as int,
                        ) == Some(f as int) && f < n,
                        None => Self::spec_first_overlap(
                            self.regions@,
                            i as int,
                            cand as int,
                            size as int,
                        ) is None,
                    },
                decreases n - i,
            {
                if found.is_none() {
                    let r_start = self.regions[i].start;
                    let r_size = self.regions[i].size;
                    if cand < r_start + r_size && r_start < cand + size {
                        found = Some(i);
                    }
                }
                i = i + 1;
            }
            match found {
                None => {
                    proof {
                        Self::lemma_first_overlap_props(
                            self.regions@,
                            self.regions@.len() as int,
                            cand as int,
                            size as int,
                        );
                    }
                    return Some(cand);
                },
                Some(f) => {
                    proof {
                        Self::lemma_first_overlap_props(
                            self.regions@,
                            self.regions@.len() as int,
                            cand as int,
                            size as int,
                        );
                    }
                    cand = self.regions[f].start + self.regions[f].size;
                },
            }
        }
    }

    /// True when `[addr, addr + len)` lies wholly inside region `i`.
    pub open spec fn spec_range_in_region(self, i: int, addr: int, len: int) -> bool {
        let r = self.regions@[i];
        r.start <= addr && addr + len <= r.start + r.size
    }

    /// True when every page covering a byte of `[addr, addr + len)` in
    /// region `i` has physical backing.
    pub open spec fn spec_range_backed(self, i: int, addr: int, len: int) -> bool {
        let r = self.regions@[i];
        forall|o: int|
            addr <= o < addr + len ==> #[trigger] r.backed@[(o - r.start) / (PAGE_SIZE_4K as int)]
    }

    /// True when `[addr, addr + len)` can be read or written through the
    /// page table: inside one region, with backing present.
    pub open spec fn spec_accessible(self, addr: int, len: int) -> bool {
        exists|i: int|
            0 <= i < self.regions@.len() && #[trigger] self.spec_range_in_region(i, addr, len)
                && self.spec_range_backed(i, addr, len)
    }

    /// Page indices within a page-aligned `size` stay below `size / page`.
    proof fn lemma_page_idx_bound(x: int, size: int)
        by (nonlinear_arith)
        requires
            0 <= x < size,
            size % 4096 == 0,
        ensures
            0 <= x / 4096 < size / 4096,
    {
    }

    /// Division by the page size is monotone.
    proof fn lemma_div_mono(x: int, y: int)
        by (nonlinear_arith)
        requires
            x <= y,
        ensures
            x / 4096 <= y / 4096,
    {
    }

    /// Writes `data` through the page table at `addr`, as the kernel: no
    /// permission check, but the whole range must be mapped and backed.
    /// A real kernel drives this copy page by page, querying each virtual
    /// page's physical frame, since a mapping need not be physically
    /// contiguous; the model's backing store is per-region, so that walk
    /// collapses into one pass over the range.
    ///
    /// On success only the bytes `[addr, addr + data.len())` of the
    /// holding region change; on failure nothing changes.
    #[verifier::loop_isolation(false)]
    pub fn write(&mut self, addr: usize, data: &Vec<u8>) -> (r: Result<(), MapError>)
        requires
            old(self).wf(),
        ensures
            final(self).wf(),
            final(self).base == old(self).base,
            final(self).end == old(self).end,
            final(self).regions@.len() == old(self).regions@.len(),
            match r {
                Ok(()) => {
                    &&& data.len() > 0 ==> {
                        let i = old(self).spec_region_idx(addr as int);
                        let r0 = old(self).regions@[i];
                        &&& old(self).spec_accessible(addr as int, data.len() as int)
                        &&& forall|j: int|
                            0 <= j < old(self).regions@.len() && j != i
                                ==> final(self).regions@[j] == old(self).regions@[j]
                        &&& final(self).regions@[i].start == r0.start
                        &&& final(self).regions@[i].size == r0.size
                        &&& final(self).regions@[i].flags == r0.flags
                        &&& final(self).regions@[i].backed@ == r0.backed@
                        &&& forall|b: int|
                            0 <= b < r0.size ==> final(self).regions@[i].data@[b] == if r0.start
                                + b < addr || r0.start + b >= addr + data.len() {
                                r0.data@[b]
                            } else {
                                data@[r0.start + b - addr]
                            }
                    }
                    &&& data.len() == 0 ==> *final(self) == *old(self)
                },
                Err(e) => {
                    &&& e == MapError::BadAddress
                    &&& data.len() > 0
                    &&& !old(self).spec_accessible(addr as int, data.len() as int)
                    &&& *final(self) == *old(self)
                },
            },
    {
        let len = data.len();
        if len == 0 {
            return Ok(());
        }
        let found = self.find_region(addr);
        let i = match found {
            None => {
                return Err(MapError::BadAddress);
            },
            Some(i) => i,
        };
        let r_start = self.regions[i].start;
        let r_size = self.regions[i].size;
        let off: usize = addr - r_start;
        if len > r_size - off {
            proof {
                assert forall|j: int|
                    0 <= j < self.regions@.len() implies !(self.spec_range_in_region(
                    j,
                    addr as int,
                    len as int,
                ) && self.spec_range_backed(j, addr as int, len as int)) by {
                    if self.spec_range_in_region(j, addr as int, len as int) {
                        self.lemma_region_idx_unique(addr as int, i as int, j);
                    }
                }
            }
            return Err(MapError::BadAddress);
        }
        let mut j: usize = 0;
        while j < len
            invariant
                j <= len,
                forall|o: int|
                    addr <= o < addr + j ==> #[trigger] self.regions@[i as int].backed@[(o
                        - r_start) / (PAGE_SIZE_4K as int)],
            decreases len - j,
        {
            proof {
                Self::lemma_page_idx_bound(off as int + j, r_size as int);
            }
            if !self.regions[i].backed[(off + j) / PAGE_SIZE_4K] {
                proof {
                    assert forall|q: int|
                        0 <= q < self.regions@.len() implies !(self.spec_range_in_region(
                        q,
                        addr as int,
                        len as int,
                    ) && self.spec_range_backed(q, addr as int, len as int)) by {
                        if self.spec_range_in_region(q, addr as int, len as int) {
                            self.lemma_region_idx_unique(addr as int, i as int, q);
                            assert(!self.spec_range_backed(i as int, addr as int, len as int))
                                by {
                                assert(addr + j < addr + len);
                                assert(!self.regions@[i as int].backed@[((addr + j) - self
                                    .regions@[i as int].start) / (PAGE_SIZE_4K as int)]);
                            }
                        }
                    }
                }
                return Err(MapError::BadAddress);
            }
            j = j + 1;
        }
        let ghost old_regions = self.regions@;
        let mut j: usize = 0;
        while j < len
            invariant
                j <= len,
                self.base == old(self).base,
                self.end == old(self).end,
                self.regions@.len() == old_regions.len(),
                forall|q: int|
                    0 <= q < old_regions.len() && q != i ==> self.regions@[q] == old_regions[q],
                self.regions@[i as int].start == old_regions[i as int].start,
                self.regions@[i as int].size == old_regions[i as int].size,
                self.regions@[i as int].flags == old_regions[i as int].flags,
                self.regions@[i as int].backed@ == old_regions[i as int].backed@,
                self.regions@[i as int].data@.len() == old_regions[i as int].data@.len(),
                forall|b: int|
                    0 <= b < old_regions[i as int].data@.len()
                        ==> self.regions@[i as int].data@[b] == if off <= b < off + j {
                        data@[b - off]
                    } else {
                        old_regions[i as int].data@[b]
                    },
            decreases len - j,
        {
            let b = data[j];
            self.regions[i].data[off + j] = b;
            j = j + 1;
        }
        proof {
            assert(old(self).spec_range_in_region(i as int, addr as int, len as int));
            assert(old(self).spec_range_backed(i as int, addr as int, len as int));
            assert forall|q: int|
                0 <= q < self.regions@.len() implies spec_wf_region(
                #[trigger] self.regions@[q],
                self.base as int,
                self.end as int,
            ) by {
                if q != i {
                    assert(self.regions@[q] == old(self).regions@[q]);
                } else {
                    assert(self.regions@[q].data@.len() == old(self).regions@[q].data@.len());
                }
            }
            assert forall|p: int, q: int|
                0 <= p < self.regions@.len() && 0 <= q < self.regions@.len() && p != q
                    implies !spec_overlap(
                (#[trigger] self.regions@[p]).start as int,
                self.regions@[p].size as int,
                (#[trigger] self.regions@[q]).start as int,
                self.regions@[q].size as int,
            ) by {
                assert(self.regions@[p].start == old(self).regions@[p].start);
                assert(self.regions@[p].size == old(self).regions@[p].size);
                assert(self.regions@[q].start == old(self).regions@[q].start);
                assert(self.regions@[q].size == old(self).regions@[q].size);
            }
        }
        Ok(())
    }

    /// Reads `len` bytes through the page table at `addr`, as the kernel.
    #[verifier::loop_isolation(false)]
    pub fn read_bytes(&self, addr: usize, len: usize) -> (r: Result<Vec<u8>, MapError>)
        requires
            self.wf(),
        ensures
            match r {
                Ok(out) => {
                    &&& out@.len() == len
                    &&& len > 0 ==> {
                        let i = self.spec_region_idx(addr as int);
                        &&& self.spec_accessible(addr as int, len as int)
                        &&& forall|j: int|
                            0 <= j < len ==> out@[j] == self.regions@[i].data@[addr + j
                                - self.regions@[i].start]
                    }
                },
                Err(e) => {
                    &&& e == MapError::BadAddress
                    &&& len > 0
                    &&& !self.spec_accessible(addr as int, len as int)
                },
            },
    {
        if len == 0 {
            return Ok(Vec::new());
        }
        let found = self.find_region(addr);
        let i = match found {
            None => {
                return Err(MapError::BadAddress);
            },
            Some(i) => i,
        };
        let r_start = self.regions[i].start;
        let r_size = self.regions[i].size;
        let off: usize = addr - r_start;
        if len > r_size - off {
            proof {
                assert forall|j: int|
                    0 <= j < self.regions@.len() implies !(self.spec_range_in_region(
                    j,
                    addr as int,
                    len as int,
                ) && self.spec_range_backed(j, addr as int, len as int)) by {
                    if self.spec_range_in_region(j, addr as int, len as int) {
                        self.lemma_region_idx_unique(addr as int, i as int, j);
                    }
                }
            }
            return Err(MapError::BadAddress);
        }
        let mut out: Vec<u8> = Vec::new();
        let mut j: usize = 0;
        while j < len
            invariant
                j <= len,
                out@.len() == j,
                forall|o: int|
                    addr <= o < addr + j ==> #[trigger] self.regions@[i as int].backed@[(o
                        - r_start) / (PAGE_SIZE_4K as int)],
                forall|q: int| 0 <= q < j ==> out@[q] == self.regions@[i as int].data@[off + q],
            decreases len - j,
        {
            proof {
                Self::lemma_page_idx_bound(off as int + j, r_size as int);
            }
            if !self.regions[i].backed[(off + j) / PAGE_SIZE_4K] {
                proof {
                    assert forall|q: int|
                        0 <= q < self.regions@.len() implies !(self.spec_range_in_region(
                        q,
                        addr as int,
                        len as int,
                    ) && self.spec_range_backed(q, addr as int, len as int)) by {
                        if self.spec_range_in_region(q, addr as int, len as int) {
                            self.lemma_region_idx_unique(addr as int, i as int, q);
                            assert(!self.spec_range_backed(i as int, addr as int, len as int))
                                by {
                                assert(addr + j < addr + len);
                                assert(!self.regions@[i as int].backed@[((addr + j) - self
                                    .regions@[i as int].start) / (PAGE_SIZE_4K as int)]);
                            }
                        }
                    }
                }
                return Err(MapError::BadAddress);
            }
            out.push(self.regions[i].data[off + j]);
            j = j + 1;
        }
        proof {
            assert(self.spec_range_in_region(i as int, addr as int, len as int));
            assert(self.spec_range_backed(i as int, addr as int, len as int));
        }
        Ok(out)
    }

    /// True when a fault at `vaddr` with rights `access` is a demand-
    /// paging event this space can resolve: the address lies in a region
    /// granting the rights, on a page without backing yet.
    pub open spec fn spec_fault_resolvable(self, vaddr: int, access: MappingFlags) -> bool {
        exists|i: int|
            0 <= i < self.regions@.len() && #[trigger] self.spec_range_in_region(i, vaddr, 1)
                && self.regions@[i].flags.spec_contains(access) && !self.regions@[i].backed@[(vaddr
                - self.regions@[i].start) / (PAGE_SIZE_4K as int)]
    }

    /// Resolves a page fault at `vaddr` with access rights `access`.
    ///
    /// Backs the touched page with a fresh zeroed page and reports `true`
    /// exactly when the fault is a demand-paging event; an access to an
    /// unmapped address, a denied right, or a page already present is
    /// rejected, and the space is unchanged.
    pub fn handle_page_fault(&mut self, vaddr: usize, access: MappingFlags) -> (ok: bool)
        requires
            old(self).wf(),
        ensures
            final(self).wf(),
            final(self).base == old(self).base,
            final(self).end == old(self).end,
            final(self).regions@.len() == old(self).regions@.len(),
            ok == old(self).spec_fault_resolvable(vaddr as int, access),
            ok ==> spec_fault_resolve_post(*old(self), *final(self), vaddr as int),
            !ok ==> *final(self) == *old(self),
    {
        let found = self.find_region(vaddr);
        let i = match found {
            None => {
                return false;
            },
            Some(i) => i,
        };
        let r_start = self.regions[i].start;
        let r_size = self.regions[i].size;
        let granted = self.regions[i].flags;
        if !granted.contains(&access) {
            proof {
                assert forall|q: int|
                    0 <= q < self.regions@.len() implies !(self.spec_range_in_region(
                    q,
                    vaddr as int,
                    1,
                ) && self.regions@[q].flags.spec_contains(access) && !self.regions@[q].backed@[(
                vaddr - self.regions@[q].start) / (PAGE_SIZE_4K as int)]) by {
                    if self.spec_range_in_region(q, vaddr as int, 1) {
                        self.lemma_region_idx_unique(vaddr as int, i as int, q);
                    }
                }
            }
            return false;
        }
        let page: usize = (vaddr - r_start) / PAGE_SIZE_4K;
        proof {
            Self::lemma_page_idx_bound(vaddr as int - r_start, r_size as int);
        }
        if self.regions[i].backed[page] {
            proof {
                assert forall|q: int|
                    0 <= q < self.regions@.len() implies !(self.spec_range_in_region(
                    q,
                    vaddr as int,
                    1,
                ) && self.regions@[q].flags.spec_contains(access) && !self.regions@[q].backed@[(
                vaddr - self.regions@[q].start) / (PAGE_SIZE_4K as int)]) by {
                    if self.spec_range_in_region(q, vaddr as int, 1) {
                        self.lemma_region_idx_unique(vaddr as int, i as int, q);
                    }
                }
            }
            return false;
        }
        self.regions[i].backed[page] = true;
        proof {
            assert(old(self).spec_range_in_region(i as int, vaddr as int, 1));
            assert forall|q: int|
                0 <= q < self.regions@.len() implies spec_wf_region(
                #[trigger] self.regions@[q],
                self.base as int,
                self.end as int,
            ) by {
                if q != i {
                    assert(self.regions@[q] == old(self).regions@[q]);
                }
            }
            assert forall|p: int, q: int|
                0 <= p < self.regions@.len() && 0 <= q < self.regions@.len() && p != q
                    implies !spec_overlap(
                (#[trigger] self.regions@[p]).start as int,
                self.regions@[p].size as int,
                (#[trigger] self.regions@[q]).start as int,
                self.regions@[q].size as int,
            ) by {
                assert(self.regions@[p].start == old(self).regions@[p].start);
                assert(self.regions@[p].size == old(self).regions@[p].size);
                assert(self.regions@[q].start == old(self).regions@[q].start);
                assert(self.regions@[q].size == old(self).regions@[q].size);
            }
        }
        true
    }

    /// True when `[addr, addr + len)` lies in one region that user mode
    /// may write: the checked-accessor condition for writes on behalf of
    /// a user program.
    pub open spec fn spec_user_writable(self, addr: int, len: int) -> bool {
        exists|i: int|
            0 <= i < self.regions@.len() && #[trigger] self.spec_range_in_region(i, addr, len)
                && self.regions@[i].flags.write && self.regions@[i].flags.user
    }

    /// Writes `data` at `addr` on behalf of user mode, through the
    /// checked accessor: the whole range must lie in one region writable
    /// and user-accessible.  Pages without backing are backed on the way,
    /// as the touch would have done.  Reports whether the write happened;
    /// on `false` nothing changes.
    #[verifier::loop_isolation(false)]
    pub fn write_user_checked(&mut self, addr: usize, data: &Vec<u8>) -> (ok: bool)
        requires
            old(self).wf(),
            data.len() >= 1,
        ensures
            final(self).wf(),
            final(self).base == old(self).base,
            final(self).end == old(self).end,
            final(self).regions@.len() == old(self).regions@.len(),
            ok == old(self).spec_user_writable(addr as int, data.len() as int),
            ok ==> spec_user_write_post(*old(self), *final(self), addr as int, data@),
            !ok ==> *final(self) == *old(self),
    {
        let len = data.len();
        let found = self.find_region(addr);
        let i = match found {
            None => {
                return false;
            },
            Some(i) => i,
        };
        let r_start = self.regions[i].start;
        let r_size = self.regions[i].size;
        let granted = self.regions[i].flags;
        let off: usize = addr - r_start;
        if len > r_size - off || !granted.write || !granted.user {
            proof {
                assert forall|q: int|
                    0 <= q < self.regions@.len() implies !(self.spec_range_in_region(
                    q,
                    addr as int,
                    len as int,
                ) && self.regions@[q].flags.write && self.regions@[q].flags.user) by {
                    if self.spec_range_in_region(q, addr as int, len as int) {
                        self.lemma_region_idx_unique(addr as int, i as int, q);
                    }
                }
            }
            return false;
        }
        let p1: usize = (off + len - 1) / PAGE_SIZE_4K;
        proof {
            Self::lemma_page_idx_bound(off + len - 1, r_size as int);
            Self::lemma_div_mono(off as int, off + len - 1);
        }
        let ghost old_regions = self.regions@;
        let mut p: usize = off / PAGE_SIZE_4K;
        while p <= p1
            invariant
                off / PAGE_SIZE_4K <= p <= p1 + 1,
                p1 < old_regions[i as int].backed@.len(),
                self.base == old(self).base,
                self.end == old(self).end,
                self.regions@.len() == old_regions.len(),
                forall|q: int|
                    0 <= q < old_regions.len() && q != i ==> self.regions@[q] == old_regions[q],
                self.regions@[i as int].start == old_regions[i as int].start,
                self.regions@[i as int].size == old_regions[i as int].size,
                self.regions@[i as int].flags == old_regions[i as int].flags,
                self.regions@[i as int].data@ == old_regions[i as int].data@,
                self.regions@[i as int].backed@.len() == old_regions[i as int].backed@.len(),
                forall|q: int|
                    0 <= q < old_regions[i as int].backed@.len()
                        ==> self.regions@[i as int].backed@[q] == if off as int / (PAGE_SIZE_4K
                        as int) <= q < p {
                        true
                    } else {
                        old_regions[i as int].backed@[q]
                    },
            decreases p1 + 1 - p,
        {
            self.regions[i].backed[p] = true;
            p = p + 1;
        }
        let mut j: usize = 0;
        while j < len
            invariant
                j <= len,
                self.base == old(self).base,
                self.end == old(self).end,
                self.regions@.len() == old_regions.len(),
                forall|q: int|
                    0 <= q < old_regions.len() && q != i ==> self.regions@[q] == old_regions[q],
                self.regions@[i as int].start == old_regions[i as int].start,
                self.regions@[i as int].size == old_regions[i as int].size,
                self.regions@[i as int].flags == old_regions[i as int].flags,
                self.regions@[i as int].backed@.len() == old_regions[i as int].backed@.len(),
                forall|q: int|
                    0 <= q < old_regions[i as int].backed@.len()
                        ==> self.regions@[i as int].backed@[q] == if off as int / (PAGE_SIZE_4K
                        as int) <= q <= (off + len - 1) as int / (PAGE_SIZE_4K as int) {
                        true
                    } else {
                        old_regions[i as int].backed@[q]
                    },
                self.regions@[i as int].data@.len() == old_regions[i as int].data@.len(),
                forall|b: int|
                    0 <= b < old_regions[i as int].data@.len()
                        ==> self.regions@[i as int].data@[b] == if off <= b < off + j {
                        data@[b - off]
                    } else {
                        old_regions[i as int].data@[b]
                    },
            decreases len - j,
        {
            let b = data[j];
            self.regions[i].data[off + j] = b;
            j = j + 1;
        }
        proof {
            assert(old(self).spec_range_in_region(i as int, addr as int, len as int));
            assert forall|q: int|
                0 <= q < self.regions@.len() implies spec_wf_region(
                #[trigger] self.regions@[q],
                self.base as int,
                self.end as int,
            ) by {
                if q != i {
                    assert(self.regions@[q] == old(self).regions@[q]);
                }
            }
            assert forall|p2: int, q: int|
                0 <= p2 < self.regions@.len() && 0 <= q < self.regions@.len() && p2 != q
                    implies !spec_overlap(
                (#[trigger] self.regions@[p2]).start as int,
                self.regions@[p2].size as int,
                (#[trigger] self.regions@[q]).start as int,
                self.regions@[q].size as int,
            ) by {
                assert(self.regions@[p2].start == old(self).regions@[p2].start);
                assert(self.regions@[p2].size == old(self).regions@[p2].size);
                assert(self.regions@[q].start == old(self).regions@[q].start);
                assert(self.regions@[q].size == old(self).regions@[q].size);
            }
        }
        true
    }
}

/// How resolving a demand-paging fault at `vaddr` changes a space: the
/// touched page of the holding region gains backing, everything else is
/// untouched.
pub open spec fn spec_fault_resolve_post(s0: AddressSpace, s1: AddressSpace, vaddr: int) -> bool {
    let i = s0.spec_region_idx(vaddr);
    let r0 = s0.regions@[i];
    &&& s1.base == s0.base
    &&& s1.end == s0.end
    &&& s1.regions@.len() == s0.regions@.len()
    &&& forall|q: int|
        0 <= q < s0.regions@.len() && q != i ==> s1.regions@[q] == s0.regions@[q]
    &&& s1.regions@[i].start == r0.start
    &&& s1.regions@[i].size == r0.size
    &&& s1.regions@[i].flags == r0.flags
    &&& s1.regions@[i].data@ == r0.data@
    &&& s1.regions@[i].backed@ == r0.backed@.update(
        (vaddr - r0.start) / (PAGE_SIZE_4K as int),
        true,
    )
}

/// How a checked user write of `bytes` at `addr` changes a space: the
/// covered pages of the holding region gain backing, its bytes take the
/// written values, everything else is untouched.
pub open spec fn spec_user_write_post(
    s0: AddressSpace,
    s1: AddressSpace,
    addr: int,
    bytes: Seq<u8>,
) -> bool {
    let i = s0.spec_region_idx(addr);
    let r0 = s0.regions@[i];
    let p0 = (addr - r0.start) / (PAGE_SIZE_4K as int);
    let p1 = (addr + bytes.len() - 1 - r0.start) / (PAGE_SIZE_4K as int);
    &&& s1.base == s0.base
    &&& s1.end == s0.end
    &&& s1.regions@.len() == s0.regions@.len()
    &&& forall|q: int|
        0 <= q < s0.regions@.len() && q != i ==> s1.regions@[q] == s0.regions@[q]
    &&& s1.regions@[i].start == r0.start
    &&& s1.regions@[i].size == r0.size
    &&& s1.regions@[i].flags == r0.flags
    &&& s1.regions@[i].backed@.len() == r0.backed@.len()
    &&& forall|p: int|
        0 <= p < r0.backed@.len() ==> s1.regions@[i].backed@[p] == if p0 <= p <= p1 {
            true
        } else {
            r0.backed@[p]
        }
    &&& forall|b: int|
        0 <= b < r0.size ==> s1.regions@[i].data@[b] == if r0.start + b < addr || r0.start + b
            >= addr + bytes.len() {
            r0.data@[b]
        } else {
            bytes[r0.start + b - addr]
        }
}

/// A failure to turn an executable image into a runnable process.
#[derive(Clone, Copy, PartialEq, Eq, Structural, Debug)]
pub enum ProcessError {
    /// The image failed validation.
    Image(LoadError),
    /// Building the address space failed.
    Mapping(MapError),
}

/// The numeric ELF auxiliary-vector tag of a key.
pub open spec fn spec_aux_tag(k: AuxKey) -> usize {
    match k {
        AuxKey::Phdr => 3,
        AuxKey::Phent => 4,
        AuxKey::Phnum => 5,
        AuxKey::Pagesz => 6,
        AuxKey::Entry => 9,
    }
}

/// The auxiliary vector as plain (tag, value) pairs.
pub open spec fn spec_aux_pairs(v: Seq<AuxvEntry>) -> Seq<(usize, usize)> {
    v.map(|i: int, e: AuxvEntry| (spec_aux_tag(e.key), e.value))
}

/// The byte encodings of a sequence of strings.
pub open spec fn spec_byte_args(v: Seq<String>) -> Seq<Seq<u8>> {
    v.map(|i: int, s: String| encode_utf8(s@))
}

/// Bytes the strings of one list can occupy in the stack blob: each
/// string with its terminator and its eight-byte pointer slot.
pub open spec fn spec_args_bound(v: Seq<Seq<u8>>) -> int
    decreases v.len(),
{
    if v.len() == 0 {
        0
    } else {
        spec_args_bound(v.drop_last()) + v.last().len() + 9
    }
}

/// Upper bound on the serialized stack blob, counted from its layout:
/// the fixed slots (argc, terminators, the random bytes, padding and the
/// appended auxiliary entries), one 16-byte slot per auxiliary entry,
/// and the strings with their pointers.
pub open spec fn spec_blob_bound(
    args: Seq<Seq<u8>>,
    envs: Seq<Seq<u8>>,
    auxv: Seq<(usize, usize)>,
) -> int {
    160 + 16 * auxv.len() + spec_args_bound(args) + spec_args_bound(envs)
}

/// The serialized initial-stack blob: what the stack-layout collaborator
/// produces from the argument strings, environment strings, auxiliary
/// vector and stack top.
pub uninterp spec fn spec_stack_blob(
    args: Seq<Seq<u8>>,
    envs: Seq<Seq<u8>>,
    auxv: Seq<(usize, usize)>,
    sp: int,
) -> Seq<u8>;

/// A UTF-8 encoding takes at most four bytes per character.
pub proof fn lemma_encode_utf8_len(chars: Seq<char>)
    ensures
        encode_utf8(chars).len() <= 4 * chars.len(),
    decreases chars.len(),
{
    if chars.len() > 0 {
        lemma_encode_utf8_len(chars.drop_first());
    }
}

/// Relies on kernel_elf_parser::app_stack_region: serializes argc, the
/// argv and envp pointers and strings, and the auxiliary vector into the
/// byte blob that fills the top of a fresh user stack, ending at `sp`.
/// The blob is a function of the arguments alone; it stays within the
/// counted layout bound, begins with the argument count, and starts
/// 16-byte aligned below `sp`.  The collaborator indexes the first
/// argument and offsets its positions from `sp`, so the arguments must
/// not be empty and the bound must not pass `sp`.
#[verifier::external_body]
fn app_stack_region(
    args: &Vec<String>,
    envs: &Vec<String>,
    auxv: &Vec<AuxvEntry>,
    sp: usize,
) -> (r: Vec<u8>)
    requires
        args@.len() >= 1,
        spec_blob_bound(spec_byte_args(args@), spec_byte_args(envs@), spec_aux_pairs(auxv@))
            <= sp,
    ensures
        r@ == spec_stack_blob(
            spec_byte_args(args@),
            spec_byte_args(envs@),
            spec_aux_pairs(auxv@),
            sp as int,
        ),
        r@.len() <= spec_blob_bound(
            spec_byte_args(args@),
            spec_byte_args(envs@),
            spec_aux_pairs(auxv@),
        ),
        8 <= r@.len(),
        (sp - r@.len()) % 16 == 0,
        spec_u64_le(r@, 0) == args@.len(),
{
    let mut aux: Vec<kernel_elf_parser::AuxEntry> = Vec::new();
    for e in auxv.iter() {
        let tag = match e.key {
            AuxKey::Phdr => kernel_elf_parser::AuxType::PHDR,
            AuxKey::Phent => kernel_elf_parser::AuxType::PHENT,
            AuxKey::Phnum => kernel_elf_parser::AuxType::PHNUM,
            AuxKey::Pagesz => kernel_elf_parser::AuxType::PAGESZ,
            AuxKey::Entry => kernel_elf_parser::AuxType::ENTRY,
        };
        aux.push(kernel_elf_parser::AuxEntry::new(tag, e.value));
    }
    kernel_elf_parser::app_stack_region(args.as_slice(), envs.as_slice(), aux.as_slice(), sp)
}

/// Page-aligning an address leaves a page-aligned value.
proof fn lemma_align_down_aligned(a: int)
    by (nonlinear_arith)
    requires
        a >= 0,
    ensures
        (a - a % 4096) % 4096 == 0,
{
}

/// The difference of two page-aligned values is page-aligned.
proof fn lemma_multiple_diff(a: int, b: int)
    by (nonlinear_arith)
    requires
        a % 4096 == 0,
        b % 4096 == 0,
        b <= a,
    ensures
        (a - b) % 4096 == 0,
{
}

/// The page-aligned range of a loadable program header is aligned at
/// both ends.
pub proof fn lemma_seg_range_aligned(img: Seq<u8>, k: int)
    requires
        crate::loader::spec_p_vaddr(img, k) >= 0,
        crate::loader::spec_p_memsz(img, k) >= 0,
    ensures
        spec_seg_start(img, k) % 4096 == 0,
        spec_seg_size(img, k) % 4096 == 0,
        spec_seg_size(img, k) >= 0,
{
    let v = crate::loader::spec_p_vaddr(img, k);
    let m = crate::loader::spec_p_memsz(img, k);
    lemma_align_down_aligned(v);
    lemma_align_down_aligned(v + m + 4095);
    assert(spec_align_down(v) <= v);
    assert(v + m <= spec_align_up(v + m));
    lemma_multiple_diff(spec_align_up(v + m), spec_align_down(v));
}

/// Lowest address of the user stack region.
pub open spec fn spec_ustack_start() -> int {
    USER_STACK_TOP - USER_STACK_SIZE
}

/// The mapping flags of the user stack.
pub open spec fn spec_stack_flags() -> MappingFlags {
    MappingFlags { read: true, write: true, execute: false, user: true }
}

/// The error mapping the `j`-th loadable segment raises, in a space
/// already holding the segments before it: an empty page range is
/// invalid, a range leaving the user space does not fit, and a range
/// touching an earlier segment conflicts.
pub open spec fn spec_seg_map_err(img: Seq<u8>, loads: Seq<int>, j: int) -> Option<MapError> {
    let start = spec_seg_start(img, loads[j]);
    let size = spec_seg_size(img, loads[j]);
    if size <= 0 {
        Some(MapError::InvalidRange)
    } else if !(USER_SPACE_BASE <= start && start + size <= USER_SPACE_BASE + USER_SPACE_SIZE) {
        Some(MapError::OutOfAddressSpace)
    } else if exists|j2: int|
        0 <= j2 < j && spec_overlap(
            spec_seg_start(img, #[trigger] loads[j2]),
            spec_seg_size(img, loads[j2]),
            start,
            size,
        ) {
        Some(MapError::MapConflict)
    } else {
        None
    }
}

/// The first error among mapping the first `n` loadable segments.
pub open spec fn spec_first_map_err(img: Seq<u8>, loads: Seq<int>, n: int) -> Option<MapError>
    decreases n,
{
    if n <= 0 {
        None
    } else if spec_first_map_err(img, loads, n - 1) is Some {
        spec_first_map_err(img, loads, n - 1)
    } else {
        spec_seg_map_err(img, loads, n - 1)
    }
}

/// The error mapping the stack region raises after all segments: a
/// conflict when a segment reached into the stack range.
pub open spec fn spec_stack_map_err(img: Seq<u8>, loads: Seq<int>) -> Option<MapError> {
    if exists|j: int|
        0 <= j < loads.len() && spec_overlap(
            spec_seg_start(img, #[trigger] loads[j]),
            spec_seg_size(img, loads[j]),
            spec_ustack_start(),
            USER_STACK_SIZE as int,
        ) {
        Some(MapError::MapConflict)
    } else {
        None
    }
}

/// The first error of the whole address-space build, segments in header
/// order and then the stack.
pub open spec fn spec_build_err(img: Seq<u8>) -> Option<MapError> {
    let loads = spec_load_idxs(img, spec_e_phnum(img));
    if spec_first_map_err(img, loads, loads.len() as int) is Some {
        spec_first_map_err(img, loads, loads.len() as int)
    } else {
        spec_stack_map_err(img, loads)
    }
}

/// The initial-stack blob of a process started with `name` as its one
/// argument and the image's auxiliary vector.
pub open spec fn spec_app_blob(img: Seq<u8>, name: Seq<char>) -> Seq<u8> {
    spec_stack_blob(
        seq![encode_utf8(name)],
        Seq::<Seq<u8>>::empty(),
        spec_aux_pairs(spec_auxv(img)),
        USER_STACK_TOP as int,
    )
}

/// True when `r` is the fully loaded, eagerly backed region of the
/// loadable program header `k`: its page range and flags, its file bytes
/// at the in-page offset, zero elsewhere.
pub open spec fn spec_load_region_matches(r: MemRegion, img: Seq<u8>, k: int) -> bool {
    &&& r.start == spec_seg_start(img, k)
    &&& r.size == spec_seg_size(img, k)
    &&& r.flags == spec_flags_of(spec_p_flags(img, k))
    &&& r.backed@ == Seq::new((spec_seg_size(img, k) / 4096) as nat, |i: int| true)
    &&& r.data@.len() == r.size
    &&& forall|b: int|
        0 <= b < r.size ==> r.data@[b] == (if spec_seg_offset(img, k) <= b < spec_seg_offset(
            img,
            k,
        ) + spec_p_filesz(img, k) {
            img[spec_p_offset(img, k) + (b - spec_seg_offset(img, k))]
        } else {
            0u8
        })
}

/// True when `r` is the built user-stack region: read-write user memory
/// over the fixed stack range, zero but for the blob at its top.
pub open spec fn spec_stack_region_matches(r: MemRegion, blob: Seq<u8>) -> bool {
    &&& r.start == spec_ustack_start()
    &&& r.size == USER_STACK_SIZE
    &&& r.flags == spec_stack_flags()
    &&& r.backed@ == Seq::new((USER_STACK_SIZE / 4096) as nat, |i: int| true)
    &&& r.data@.len() == USER_STACK_SIZE
    &&& forall|b: int|
        0 <= b < USER_STACK_SIZE ==> r.data@[b] == (if b >= USER_STACK_SIZE - blob.len() {
            blob[b - (USER_STACK_SIZE - blob.len())]
        } else {
            0u8
        })
}

/// Everything `load_user_app` promises of a built process: the image's
/// entry point, the initial stack pointer under the blob, and an address
/// space holding exactly one region per loadable segment, in order, and
/// the stack region.
pub open spec fn spec_load_post(
    space: AddressSpace,
    img: Seq<u8>,
    name: Seq<char>,
    entry: int,
    usp: int,
) -> bool {
    let loads = spec_load_idxs(img, spec_e_phnum(img));
    let blob = spec_app_blob(img, name);
    &&& entry == spec_e_entry(img)
    &&& usp == USER_STACK_TOP - blob.len()
    &&& space.base == USER_SPACE_BASE
    &&& space.end == USER_SPACE_BASE + USER_SPACE_SIZE
    &&& space.regions@.len() == loads.len() + 1
    &&& forall|j: int|
        0 <= j < loads.len() ==> spec_load_region_matches(
            #[trigger] space.regions@[j],
            img,
            loads[j],
        )
    &&& spec_stack_region_matches(space.regions@[loads.len() as int], blob)
}

/// Maps the `j`-th loadable segment into a space already holding the
/// segments before it, eagerly backed, and copies its bytes in.
#[verifier::loop_isolation(false)]
#[verifier::rlimit(60)]
fn map_segment_step(
    uspace: &mut AddressSpace,
    seg: &crate::loader::ELFSegment,
    Ghost(img): Ghost<Seq<u8>>,
    Ghost(loads): Ghost<Seq<int>>,
    Ghost(j): Ghost<int>,
) -> (r: Result<(), MapError>)
    requires
        old(uspace).wf(),
        old(uspace).base == USER_SPACE_BASE,
        old(uspace).end == USER_SPACE_BASE + USER_SPACE_SIZE,
        old(uspace).regions@.len() == j,
        0 <= j < loads.len(),
        forall|q: int|
            0 <= q < j ==> spec_load_region_matches(
                #[trigger] old(uspace).regions@[q],
                img,
                loads[q],
            ),
        crate::loader::spec_seg_matches(*seg, img, loads[j]),
        crate::loader::spec_ph_ok(img, loads[j]),
        crate::loader::spec_p_type(img, loads[j]) == 1,
        crate::loader::spec_p_offset(img, loads[j]) >= 0,
    ensures
        final(uspace).base == old(uspace).base,
        final(uspace).end == old(uspace).end,
        final(uspace).wf(),
        match r {
            Ok(()) => {
                &&& final(uspace).regions@.len() == j + 1
                &&& forall|q: int|
                    0 <= q < j ==> #[trigger] final(uspace).regions@[q] == old(uspace).regions@[q]
                &&& spec_load_region_matches(final(uspace).regions@[j], img, loads[j])
                &&& spec_seg_map_err(img, loads, j) is None
            },
            Err(e) => {
                &&& spec_seg_map_err(img, loads, j) == Some(e)
                &&& *final(uspace) == *old(uspace)
            },
        },
{
    proof {
        lemma_seg_range_aligned(img, loads[j]);
    }
    match uspace.map_alloc(seg.start_vaddr, seg.size, seg.flags, true) {
        Ok(()) => {},
        Err(e) => {
            proof {
                if e == MapError::MapConflict {
                    let i2 = choose|i2: int|
                        0 <= i2 < uspace.regions@.len() && spec_overlap(
                            (#[trigger] uspace.regions@[i2]).start as int,
                            uspace.regions@[i2].size as int,
                            seg.start_vaddr as int,
                            seg.size as int,
                        );
                    assert(spec_overlap(
                        spec_seg_start(img, loads[i2]),
                        spec_seg_size(img, loads[i2]),
                        spec_seg_start(img, loads[j]),
                        spec_seg_size(img, loads[j]),
                    ));
                }
            }
            return Err(e);
        },
    }
    if seg.data.len() > 0 {
        let dst: usize = seg.start_vaddr + seg.offset;
        let ghost before = *uspace;
        match uspace.write(dst, &seg.data) {
            Ok(()) => {},
            Err(_) => {
                proof {
                    assert(before.spec_range_in_region(j, dst as int, seg.data@.len() as int));
                    assert(before.spec_range_backed(j, dst as int, seg.data@.len() as int));
                    assert(false);
                }
                return Err(MapError::BadAddress);
            },
        }
        proof {
            before.lemma_region_idx_unique(dst as int, j, before.spec_region_idx(dst as int));
        }
    }
    proof {
        assert forall|j2: int|
            0 <= j2 < j implies !spec_overlap(
            spec_seg_start(img, #[trigger] loads[j2]),
            spec_seg_size(img, loads[j2]),
            spec_seg_start(img, loads[j]),
            spec_seg_size(img, loads[j]),
        ) by {
            assert(old(uspace).regions@[j2].start == spec_seg_start(img, loads[j2]));
            assert(old(uspace).regions@[j2].size == spec_seg_size(img, loads[j2]));
        }
        assert(spec_seg_map_err(img, loads, j) is None);
        assert(spec_load_region_matches(final(uspace).regions@[j], img, loads[j]));
    }
    Ok(())
}

/// Maps the eagerly backed stack region after all segments.
#[verifier::loop_isolation(false)]
#[verifier::rlimit(100)]
fn map_stack(
    uspace: &mut AddressSpace,
    Ghost(img): Ghost<Seq<u8>>,
    Ghost(loads): Ghost<Seq<int>>,
) -> (r: Result<(), MapError>)
    requires
        old(uspace).wf(),
        old(uspace).base == USER_SPACE_BASE,
        old(uspace).end == USER_SPACE_BASE + USER_SPACE_SIZE,
        old(uspace).regions@.len() == loads.len(),
        forall|q: int|
            0 <= q < loads.len() ==> spec_load_region_matches(
                #[trigger] old(uspace).regions@[q],
                img,
                loads[q],
            ),
    ensures
        final(uspace).base == old(uspace).base,
        final(uspace).end == old(uspace).end,
        final(uspace).wf(),
        match r {
            Ok(()) => {
                &&& final(uspace).regions@.len() == loads.len() + 1
                &&& forall|q: int|
                    0 <= q < loads.len() ==> #[trigger] final(uspace).regions@[q] == old(
                        uspace,
                    ).regions@[q]
                &&& AddressSpace::spec_fresh_region(
                    final(uspace).regions@[loads.len() as int],
                    spec_ustack_start(),
                    USER_STACK_SIZE as int,
                    spec_stack_flags(),
                    true,
                )
                &&& spec_stack_map_err(img, loads) is None
            },
            Err(e) => {
                &&& spec_stack_map_err(img, loads) == Some(e)
                &&& *final(uspace) == *old(uspace)
            },
        },
{
    let ustack_start: usize = USER_STACK_TOP - USER_STACK_SIZE;
    match uspace.map_alloc(
        ustack_start,
        USER_STACK_SIZE,
        MappingFlags { read: true, write: true, execute: false, user: true },
        true,
    ) {
        Ok(()) => {
            proof {
                assert forall|q: int|
                    0 <= q < loads.len() implies #[trigger] uspace.regions@[q] == old(
                    uspace,
                ).regions@[q] by {
                    assert(uspace.regions@.subrange(0, old(uspace).regions@.len() as int)[q]
                        == uspace.regions@[q]);
                }
                assert forall|j2: int|
                    0 <= j2 < loads.len() implies !spec_overlap(
                    spec_seg_start(img, #[trigger] loads[j2]),
                    spec_seg_size(img, loads[j2]),
                    spec_ustack_start(),
                    USER_STACK_SIZE as int,
                ) by {
                    assert(old(uspace).regions@[j2].start == spec_seg_start(img, loads[j2]));
                    assert(old(uspace).regions@[j2].size == spec_seg_size(img, loads[j2]));
                }
                assert(spec_stack_map_err(img, loads) is None);
            }
            Ok(())
        },
        Err(e) => {
            proof {
                assert(e == MapError::MapConflict);
                let i2 = choose|i2: int|
                    0 <= i2 < uspace.regions@.len() && spec_overlap(
                        (#[trigger] uspace.regions@[i2]).start as int,
                        uspace.regions@[i2].size as int,
                        ustack_start as int,
                        USER_STACK_SIZE as int,
                    );
                assert(spec_overlap(
                    spec_seg_start(img, loads[i2]),
                    spec_seg_size(img, loads[i2]),
                    spec_ustack_start(),
                    USER_STACK_SIZE as int,
                ));
            }
            Err(e)
        },
    }
}

/// Serializes the startup blob and writes it at the top of the freshly
/// mapped stack region; returns the initial stack pointer.
#[verifier::loop_isolation(false)]
#[verifier::rlimit(60)]
fn write_stack_blob(
    uspace: &mut AddressSpace,
    name: &String,
    auxv: &Vec<AuxvEntry>,
    Ghost(img): Ghost<Seq<u8>>,
) -> (usp: usize)
    requires
        old(uspace).wf(),
        old(uspace).regions@.len() >= 1,
        name@.len() <= 800,
        auxv@ == spec_auxv(img),
        AddressSpace::spec_fresh_region(
            old(uspace).regions@.last(),
            spec_ustack_start(),
            USER_STACK_SIZE as int,
            spec_stack_flags(),
            true,
        ),
    ensures
        final(uspace).base == old(uspace).base,
        final(uspace).end == old(uspace).end,
        final(uspace).wf() == old(uspace).wf(),
        final(uspace).regions@.len() == old(uspace).regions@.len(),
        forall|q: int|
            0 <= q < old(uspace).regions@.len() - 1 ==> #[trigger] final(uspace).regions@[q]
                == old(uspace).regions@[q],
        usp == USER_STACK_TOP - spec_app_blob(img, name@).len(),
        spec_stack_region_matches(final(uspace).regions@.last(), spec_app_blob(img, name@)),
{
    let mut args: Vec<String> = Vec::new();
    args.push(name.clone());
    let envs: Vec<String> = Vec::new();
    proof {
        lemma_encode_utf8_len(name@);
        assert(spec_byte_args(args@) =~= seq![encode_utf8(name@)]);
        assert(spec_byte_args(envs@) =~= Seq::<Seq<u8>>::empty());
        let a0 = seq![encode_utf8(name@)];
        assert(a0.drop_last() =~= Seq::<Seq<u8>>::empty());
        assert(a0.last() == encode_utf8(name@));
        assert(spec_args_bound(a0.drop_last()) == 0);
        assert(spec_args_bound(a0) == encode_utf8(name@).len() + 9);
        assert(spec_aux_pairs(auxv@).len() <= 5);
    }
    let blob = app_stack_region(&args, &envs, auxv, USER_STACK_TOP);
    let usp: usize = USER_STACK_TOP - blob.len();
    let ghost si = old(uspace).regions@.len() - 1;
    let ghost before = *uspace;
    match uspace.write(usp, &blob) {
        Ok(()) => {},
        Err(_) => {
            proof {
                assert(before.spec_range_in_region(si, usp as int, blob@.len() as int));
                assert(before.spec_range_backed(si, usp as int, blob@.len() as int));
                assert(false);
            }
        },
    }
    proof {
        before.lemma_region_idx_unique(usp as int, si, before.spec_region_idx(usp as int));
        assert(spec_stack_region_matches(uspace.regions@.last(), spec_app_blob(img, name@)));
    }
    usp
}

/// Loads a user program: validates the image, reserves a fresh address
/// space, maps every loadable segment eagerly and copies its bytes in,
/// maps the stack region and fills its top with the serialized
/// argv/envp/auxv blob.
///
/// Returns the entry point, the initial user stack pointer, and the
/// address space; or the first validation or mapping error.  A failed
/// build hands nothing out.
#[verifier::loop_isolation(false)]
#[verifier::rlimit(60)]
pub fn load_user_app(name: &String, img: &Vec<u8>, host: Arch) -> (r: Result<
    (usize, usize, AddressSpace),
    ProcessError,
>)
    requires
        name@.len() <= 800,
    ensures
        match r {
            Ok((entry, usp, space)) => {
                &&& spec_load_error(img@, host) is None
                &&& spec_build_err(img@) is None
                &&& space.wf()
                &&& spec_load_post(space, img@, name@, entry as int, usp as int)
            },
            Err(ProcessError::Image(e)) => spec_load_error(img@, host) == Some(e),
            Err(ProcessError::Mapping(e)) => spec_load_error(img@, host) is None
                && spec_build_err(img@) == Some(e),
        },
{
    let info = match parse_elf(img, host) {
        Ok(i) => i,
        Err(e) => {
            return Err(ProcessError::Image(e));
        },
    };
    let mut uspace = match AddressSpace::new(USER_SPACE_BASE, USER_SPACE_SIZE) {
        Ok(s) => s,
        Err(_) => {
            proof {
                assert(false);
            }
            return Err(ProcessError::Mapping(MapError::OutOfAddressSpace));
        },
    };
    let ghost loads = spec_load_idxs(img@, spec_e_phnum(img@));
    proof {
        lemma_load_idxs_props(img@, spec_e_phnum(img@));
    }
    let nsegs = info.segments.len();
    let mut j: usize = 0;
    while j < nsegs
        invariant
            j <= nsegs,
            uspace.wf(),
            uspace.base == USER_SPACE_BASE,
            uspace.end == USER_SPACE_BASE + USER_SPACE_SIZE,
            uspace.regions@.len() == j,
            forall|q: int|
                0 <= q < j ==> spec_load_region_matches(
                    #[trigger] uspace.regions@[q],
                    img@,
                    loads[q],
                ),
            spec_first_map_err(img@, loads, j as int) is None,
        decreases nsegs - j,
    {
        let seg = &info.segments[j];
        match map_segment_step(&mut uspace, seg, Ghost(img@), Ghost(loads), Ghost(j as int)) {
            Ok(()) => {},
            Err(e) => {
                proof {
                    assert(spec_first_map_err(img@, loads, j as int + 1) == Some(e));
                    lemma_first_map_err_prefix(img@, loads, j as int + 1, loads.len() as int);
                }
                return Err(ProcessError::Mapping(e));
            },
        }
        j = j + 1;
    }
    match map_stack(&mut uspace, Ghost(img@), Ghost(loads)) {
        Ok(()) => {},
        Err(e) => {
            return Err(ProcessError::Mapping(e));
        },
    }
    let usp = write_stack_blob(&mut uspace, name, &info.auxv, Ghost(img@));
    Ok((info.entry, usp, uspace))
}

/// Every recorded loadable index is a loadable program header in range.
pub proof fn lemma_load_idxs_props(img: Seq<u8>, n: int)
    ensures
        forall|q: int|
            0 <= q < spec_load_idxs(img, n).len() ==> {
                &&& 0 <= #[trigger] spec_load_idxs(img, n)[q] < n
                &&& crate::loader::spec_p_type(img, spec_load_idxs(img, n)[q]) == 1
            },
    decreases n,
{
    if n > 0 {
        lemma_load_idxs_props(img, n - 1);
        let prev = spec_load_idxs(img, n - 1);
        let cur = spec_load_idxs(img, n);
        assert forall|q: int|
            0 <= q < cur.len() implies (0 <= #[trigger] cur[q] < n && crate::loader::spec_p_type(
            img,
            cur[q],
        ) == 1) by {
            if q < prev.len() {
                assert(cur[q] == prev[q]);
            }
        }
    }
}

/// A first-mapping-error verdict reached early stays the verdict of any
/// longer prefix.
pub proof fn lemma_first_map_err_prefix(img: Seq<u8>, loads: Seq<int>, n1: int, n2: int)
    requires
        0 <= n1 <= n2,
        spec_first_map_err(img, loads, n1) is Some,
    ensures
        spec_first_map_err(img, loads, n2) == spec_first_map_err(img, loads, n1),
    decreases n2,
{
    if n2 > n1 {
        lemma_first_map_err_prefix(img, loads, n1, n2 - 1);
    }
}

/// Loading the same byte buffer twice, under the same name, produces two
/// address spaces with byte-identical mapped contents at corresponding
/// offsets: every promise `load_user_app` makes pins the built space to
/// a function of the image and name alone.
pub proof fn lemma_load_contents_identical(
    s1: AddressSpace,
    s2: AddressSpace,
    img: Seq<u8>,
    name: Seq<char>,
    e1: int,
    u1: int,
    e2: int,
    u2: int,
)
    requires
        spec_load_post(s1, img, name, e1, u1),
        spec_load_post(s2, img, name, e2, u2),
    ensures
        e1 == e2,
        u1 == u2,
        s1.regions@.len() == s2.regions@.len(),
        forall|j: int|
            0 <= j < s1.regions@.len() ==> {
                &&& (#[trigger] s1.regions@[j]).start == s2.regions@[j].start
                &&& s1.regions@[j].size == s2.regions@[j].size
                &&& s1.regions@[j].flags == s2.regions@[j].flags
                &&& s1.regions@[j].backed@ == s2.regions@[j].backed@
                &&& s1.regions@[j].data@ == s2.regions@[j].data@
            },
{
    let loads = spec_load_idxs(img, spec_e_phnum(img));
    let blob = spec_app_blob(img, name);
    assert forall|j: int|
        0 <= j < s1.regions@.len() implies {
        &&& (#[trigger] s1.regions@[j]).start == s2.regions@[j].start
        &&& s1.regions@[j].size == s2.regions@[j].size
        &&& s1.regions@[j].flags == s2.regions@[j].flags
        &&& s1.regions@[j].backed@ == s2.regions@[j].backed@
        &&& s1.regions@[j].data@ == s2.regions@[j].data@
    } by {
        if j < loads.len() {
            assert(spec_load_region_matches(s1.regions@[j], img, loads[j]));
            assert(spec_load_region_matches(s2.regions@[j], img, loads[j]));
            assert(s1.regions@[j].data@ =~= s2.regions@[j].data@);
        } else {
            assert(spec_stack_region_matches(s1.regions@[j], blob));
            assert(spec_stack_region_matches(s2.regions@[j], blob));
            assert(s1.regions@[j].data@ =~= s2.regions@[j].data@);
        }
    }
}

} // verus!
