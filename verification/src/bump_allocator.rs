//! The early allocator: one memory range that hands out bytes from its low
//! end upwards and pages from its high end downwards.
//!
//! ```text
//! [ bytes-used | avail-area | pages-used ]
//! |            | -->    <-- |            |
//! start       b_pos        p_pos       end
//! ```
//!
//! The byte area keeps a count of live allocations and is freed as a whole
//! when the count falls to zero. The page area is never freed.

use vstd::prelude::*;
use vstd::arithmetic::power2::is_pow2;
use crate::align::{
    align_down, align_down_spec, align_up, align_up_spec, lemma_align_down_pow2,
    lemma_align_up_pow2, lemma_pow2_exponent,
};
use crate::error::AllocError;

verus! {

/// The positions that describe an early allocator.
pub struct EarlyAllocatorState {
    /// First address of the range.
    pub start: int,
    /// One past the last address of the range.
    pub end: int,
    /// One past the last byte handed out from the low end.
    pub b_pos: int,
    /// First address of the pages handed out from the high end.
    pub p_pos: int,
    /// Number of byte allocations that have not been given back.
    pub count: int,
}

impl EarlyAllocatorState {
    /// The positions lie in order inside the range, and everything fits the
    /// machine word. Every allocator is in such a state at all times.
    pub open spec fn ordered(self) -> bool {
        &&& 0 <= self.start <= self.b_pos <= self.p_pos <= self.end <= usize::MAX
        &&& 0 <= self.count <= usize::MAX
    }
}

/// Whether a byte allocation of `size` bytes aligned to `align` fits between
/// the two positions: rounding `b_pos` up must stay inside the address
/// range, and the block must end at or before `p_pos`.
pub open spec fn bytes_fit(s: EarlyAllocatorState, size: usize, align: usize) -> bool {
    &&& s.b_pos + align - 1 <= usize::MAX
    &&& align_up_spec(s.b_pos as usize, align) + size <= s.p_pos
}

/// Whether `num_pages` pages of `page_size` bytes can be cut off below
/// `p_pos` at all, before alignment.
pub open spec fn pages_fit(s: EarlyAllocatorState, num_pages: usize, page_size: usize) -> bool {
    num_pages * page_size <= s.p_pos
}

/// Where a page allocation would start: `p_pos` lowered by the size of the
/// pages and rounded down to `align_pow2`.
pub open spec fn page_base(
    s: EarlyAllocatorState,
    num_pages: usize,
    page_size: usize,
    align_pow2: usize,
) -> usize {
    align_down_spec((s.p_pos - num_pages * page_size) as usize, align_pow2)
}

/// Early memory allocator, for use before the real byte and page allocators
/// are up. `PAGE_SIZE` must be a power of two.
pub struct EarlyAllocator<const PAGE_SIZE: usize> {
    start: usize,
    end: usize,
    b_pos: usize,
    p_pos: usize,
    count: usize,
    page_size: usize,
}

impl<const PAGE_SIZE: usize> View for EarlyAllocator<PAGE_SIZE> {
    type V = EarlyAllocatorState;

    closed spec fn view(&self) -> EarlyAllocatorState {
        EarlyAllocatorState {
            start: self.start as int,
            end: self.end as int,
            b_pos: self.b_pos as int,
            p_pos: self.p_pos as int,
            count: self.count as int,
        }
    }
}

impl<const PAGE_SIZE: usize> EarlyAllocator<PAGE_SIZE> {
    #[verifier::type_invariant]
    spec fn ordered(self) -> bool {
        &&& is_pow2(PAGE_SIZE as int)
        &&& self.start <= self.b_pos <= self.p_pos <= self.end
    }

    /// An allocator over the empty range at address zero.
    pub fn new() -> (r: Self)
        requires
            is_pow2(PAGE_SIZE as int),
        ensures
            r@ == (EarlyAllocatorState { start: 0, end: 0, b_pos: 0, p_pos: 0, count: 0 }),
            r@.ordered(),
    {
        Self { start: 0, end: 0, b_pos: 0, p_pos: 0, count: 0, page_size: 0 }
    }

    /// Whether a byte allocation of `size` bytes aligned to `align` fits.
    pub fn can_alloc_bytes(&self, size: usize, align: usize) -> (r: bool)
        requires
            align >= 1,
        ensures
            r == bytes_fit(self@, size, align),
            self@.ordered(),
    {
        proof {
            use_type_invariant(self);
        }
        match self.b_pos.checked_add(align - 1) {
            None => false,
            Some(_) => {
                let aligned_pos = align_up(self.b_pos, align);
                match aligned_pos.checked_add(size) {
                    None => {
                        proof {
                            use_type_invariant(self);
                        }
                        false
                    },
                    Some(block_end) => block_end <= self.p_pos,
                }
            },
        }
    }

    /// Takes over the range of `size` bytes at `start`. Whatever the
    /// allocator held before is forgotten.
    pub fn init(&mut self, start: usize, size: usize)
        requires
            start + size <= usize::MAX,
        ensures
            final(self)@ == (EarlyAllocatorState {
                start: start as int,
                end: start + size,
                b_pos: start as int,
                p_pos: start + size,
                count: 0,
            }),
            final(self)@.ordered(),
    {
        proof {
            use_type_invariant(&*self);
        }
        *self = Self {
            start,
            end: start + size,
            b_pos: start,
            p_pos: start + size,
            count: 0,
            page_size: PAGE_SIZE,
        };
    }

    /// The range cannot grow: always refuses with `NoMemory` and changes
    /// nothing.
    pub fn add_memory(&mut self, start: usize, size: usize) -> (r: Result<(), AllocError>)
        ensures
            r == Err::<(), AllocError>(AllocError::NoMemory),
            final(self)@ == old(self)@,
    {
        Err(AllocError::NoMemory)
    }

    /// Hands out `size` bytes aligned to `align` from the low end and
    /// returns their address, or refuses with `NoMemory` if they do not fit.
    pub fn alloc_bytes(&mut self, size: usize, align: usize) -> (r: Result<usize, AllocError>)
        requires
            align >= 1,
            old(self)@.count < usize::MAX,
        ensures
            bytes_fit(old(self)@, size, align) ==> r == Ok::<usize, AllocError>(
                align_up_spec(old(self)@.b_pos as usize, align),
            ) && final(self)@ == (EarlyAllocatorState {
                b_pos: align_up_spec(old(self)@.b_pos as usize, align) + size,
                count: old(self)@.count + 1,
                ..old(self)@
            }),
            !bytes_fit(old(self)@, size, align) ==> r == Err::<usize, AllocError>(
                AllocError::NoMemory,
            ) && final(self)@ == old(self)@,
            final(self)@.ordered(),
            r matches Ok(pos) ==> old(self)@.b_pos <= pos && pos + size <= old(self)@.p_pos,
            r matches Ok(pos) ==> is_pow2(align as int) ==> pos % align == 0,
    {
        if !self.can_alloc_bytes(size, align) {
            return Err(AllocError::NoMemory);
        }
        proof {
            use_type_invariant(&*self);
            if is_pow2(align as int) {
                lemma_align_up_pow2(self.b_pos, align);
            }
        }
        let aligned_pos = align_up(self.b_pos, align);
        *self = Self {
            start: self.start,
            end: self.end,
            b_pos: aligned_pos + size,
            p_pos: self.p_pos,
            count: self.count + 1,
            page_size: self.page_size,
        };
        Ok(aligned_pos)
    }

    /// Gives one byte allocation back. Which one does not matter: when the
    /// last live allocation is given back the whole byte area is free again.
    pub fn dealloc(&mut self, pos: usize, size: usize, align: usize)
        requires
            old(self)@.count >= 1,
        ensures
            final(self)@ == (EarlyAllocatorState {
                count: old(self)@.count - 1,
                b_pos: if old(self)@.count == 1 {
                    old(self)@.start
                } else {
                    old(self)@.b_pos
                },
                ..old(self)@
            }),
            final(self)@.ordered(),
    {
        proof {
            use_type_invariant(&*self);
        }
        let count = self.count - 1;
        let b_pos = if count == 0 {
            self.start
        } else {
            self.b_pos
        };
        *self = Self {
            start: self.start,
            end: self.end,
            b_pos,
            p_pos: self.p_pos,
            count,
            page_size: self.page_size,
        };
    }

    /// Number of byte allocations that have not been given back.
    pub fn live_allocations(&self) -> (r: usize)
        ensures
            r == self@.count,
    {
        self.count
    }

    /// Size of the whole range in bytes.
    pub fn total_bytes(&self) -> (r: usize)
        ensures
            r == self@.end - self@.start,
    {
        proof {
            use_type_invariant(self);
        }
        self.end - self.start
    }

    /// Size of the byte area in bytes.
    pub fn used_bytes(&self) -> (r: usize)
        ensures
            r == self@.b_pos - self@.start,
    {
        proof {
            use_type_invariant(self);
        }
        self.b_pos - self.start
    }

    /// Size of the free area in bytes.
    pub fn available_bytes(&self) -> (r: usize)
        ensures
            r == self@.p_pos - self@.b_pos,
    {
        proof {
            use_type_invariant(self);
        }
        self.p_pos - self.b_pos
    }

    /// Hands out `num_pages` pages from the high end, starting at an address
    /// rounded down to `align_pow2`, and returns that address. Refuses with
    /// `InvalidParam` if `align_pow2` is not a multiple of the page size, and
    /// with `NoMemory` if the pages do not fit above the byte area.
    pub fn alloc_pages(&mut self, num_pages: usize, align_pow2: usize) -> (r: Result<
        usize,
        AllocError,
    >)
        requires
            align_pow2 >= 1,
        ensures
            r == Self::alloc_pages_result(old(self)@, num_pages, align_pow2),
            r matches Ok(pos) ==> final(self)@ == (EarlyAllocatorState {
                p_pos: pos as int,
                ..old(self)@
            }),
            r is Err ==> final(self)@ == old(self)@,
            final(self)@.ordered(),
            r matches Ok(pos) ==> old(self)@.b_pos <= pos && pos + num_pages * PAGE_SIZE <= old(
                self,
            )@.p_pos,
            r matches Ok(pos) ==> is_pow2(align_pow2 as int) ==> pos % align_pow2 == 0,
    {
        proof {
            use_type_invariant(&*self);
            let n = lemma_pow2_exponent(PAGE_SIZE);
        }
        if align_pow2 % PAGE_SIZE != 0 {
            return Err(AllocError::InvalidParam);
        }
        let size = match num_pages.checked_mul(PAGE_SIZE) {
            Some(size) => size,
            None => {
                return Err(AllocError::NoMemory);
            },
        };
        let below = match self.p_pos.checked_sub(size) {
            Some(below) => below,
            None => {
                return Err(AllocError::NoMemory);
            },
        };
        let aligned_pos = align_down(below, align_pow2);
        proof {
            if is_pow2(align_pow2 as int) {
                lemma_align_down_pow2(below, align_pow2);
            }
        }
        if aligned_pos < self.b_pos {
            return Err(AllocError::NoMemory);
        }
        *self = Self {
            start: self.start,
            end: self.end,
            b_pos: self.b_pos,
            p_pos: aligned_pos,
            count: self.count,
            page_size: self.page_size,
        };
        Ok(aligned_pos)
    }

    /// What a page allocation returns in the state `s`.
    pub open spec fn alloc_pages_result(
        s: EarlyAllocatorState,
        num_pages: usize,
        align_pow2: usize,
    ) -> Result<usize, AllocError> {
        if align_pow2 % PAGE_SIZE != 0 {
            Err(AllocError::InvalidParam)
        } else if !pages_fit(s, num_pages, PAGE_SIZE) {
            Err(AllocError::NoMemory)
        } else if page_base(s, num_pages, PAGE_SIZE, align_pow2) < s.b_pos {
            Err(AllocError::NoMemory)
        } else {
            Ok(page_base(s, num_pages, PAGE_SIZE, align_pow2))
        }
    }

    /// Pages are never given back: does nothing.
    pub fn dealloc_pages(&mut self, pos: usize, num_pages: usize)
        ensures
            final(self)@ == old(self)@,
    {
    }

    /// Number of whole pages in the range.
    pub fn total_pages(&self) -> (r: usize)
        ensures
            r == (self@.end - self@.start) / (PAGE_SIZE as int),
    {
        proof {
            use_type_invariant(self);
            let n = lemma_pow2_exponent(PAGE_SIZE);
        }
        (self.end - self.start) / PAGE_SIZE
    }

    /// Number of whole pages in the page area.
    pub fn used_pages(&self) -> (r: usize)
        ensures
            r == (self@.end - self@.p_pos) / (PAGE_SIZE as int),
    {
        proof {
            use_type_invariant(self);
            let n = lemma_pow2_exponent(PAGE_SIZE);
        }
        (self.end - self.p_pos) / PAGE_SIZE
    }

    /// Number of whole pages in the free area.
    pub fn available_pages(&self) -> (r: usize)
        ensures
            r == (self@.p_pos - self@.b_pos) / (PAGE_SIZE as int),
    {
        proof {
            use_type_invariant(self);
            let n = lemma_pow2_exponent(PAGE_SIZE);
        }
        (self.p_pos - self.b_pos) / PAGE_SIZE
    }
}

} // verus!
