//! A byte allocator that serves some requests from a bump range and hands
//! the others to a two-level segregated fit pool.
//!
//! Allocation is complete here. Giving memory to the pool and taking a block
//! back from it work on raw addresses, which only the caller can vouch for:
//! for those the allocator decides, the caller acts on the pool that
//! `pool_mut` hands out, and then reports back how the pool fared.

use vstd::prelude::*;
use crate::error::AllocError;

verus! {

/// Requests of at least this size count as large.
pub const LARGE_REQUEST: usize = 524288;

/// Number of trailing zero bits of `x`; the width of the word for zero.
pub open spec fn trailing_zeros_spec(x: usize) -> nat
    decreases x,
{
    if x == 0 {
        usize::BITS as nat
    } else if x % 2 == 1 {
        0
    } else {
        1 + trailing_zeros_spec(x / 2)
    }
}

/// `usize::trailing_zeros` returns the number of trailing zero bits of its
/// argument in binary, which for zero is the width of the type.
pub assume_specification[ usize::trailing_zeros ](x: usize) -> (r: u32)
    ensures
        r == trailing_zeros_spec(x),
;

/// The pool that serves what the bump range does not.
#[verifier::external_type_specification]
#[verifier::external_body]
#[verifier::reject_recursive_types(FLBitmap)]
#[verifier::reject_recursive_types(SLBitmap)]
pub struct ExTlsf<'pool, FLBitmap, SLBitmap, const FLLEN: usize, const SLLEN: usize>(
    rlsf::Tlsf<'pool, FLBitmap, SLBitmap, FLLEN, SLLEN>,
);

/// Free memory `before` and `after` a block of `size` bytes at `address` was
/// taken from it: the bytes of the block were free and are so no longer, and
/// nothing is free afterwards that was not free before.
pub open spec fn block_taken(before: Set<int>, after: Set<int>, address: int, size: int) -> bool {
    &&& after.subset_of(before)
    &&& forall|a: int|
        address <= a < address + size ==> #[trigger] before.contains(a) && !after.contains(a)
}

/// The memory that a pool holds free: the addresses of the bytes of its free
/// blocks.
pub uninterp spec fn pool_free(pool: rlsf::Tlsf<'static, u32, u32, 28, 32>) -> Set<int>;

/// Makes an empty pool with `rlsf::Tlsf::new`.
///
/// Trusted: the pool that it constructs is empty, so it holds no free memory.
#[verifier::external_body]
fn pool_new() -> (pool: rlsf::Tlsf<'static, u32, u32, 28, 32>)
    ensures
        pool_free(pool) == Set::<int>::empty(),
{
    rlsf::Tlsf::new()
}

/// Asks the pool for a block with `rlsf::Tlsf::allocate`.
///
/// Trusted: the address of a block that the pool hands out is not null. The
/// block is cut from a free block of the pool, whose rest stays free: its
/// bytes were free and are so no longer, and no memory becomes free. A pool
/// that gives no block is left as it was, and a pool without free memory
/// gives none. Which free block a pool with free memory picks, and whether
/// one is large enough, is not claimed. A size and alignment that make no
/// layout get no block.
#[verifier::external_body]
fn pool_allocate(
    pool: &mut rlsf::Tlsf<'static, u32, u32, 28, 32>,
    size: usize,
    align: usize,
) -> (r: Option<usize>)
    ensures
        r matches Some(address) ==> address != 0,
        r matches Some(address) ==> block_taken(
            pool_free(*old(pool)),
            pool_free(*final(pool)),
            address as int,
            size as int,
        ),
        r is None ==> pool_free(*final(pool)) == pool_free(*old(pool)),
        pool_free(*old(pool)) == Set::<int>::empty() ==> r is None,
{
    let layout = core::alloc::Layout::from_size_align(size, align).ok()?;
    pool.allocate(layout).map(|block| block.as_ptr() as usize)
}

/// Whether the number of trailing zero bits of `x` is even.
pub open spec fn is_64_family_spec(x: usize) -> bool {
    trailing_zeros_spec(x) % 2 == 0
}

/// Whether the number of trailing zero bits of `x` is even, as it is for
/// 1, 4, 16, 64 and their odd multiples.
pub fn is_64_family(x: usize) -> (r: bool)
    ensures
        r == is_64_family_spec(x),
{
    let tz = x.trailing_zeros();
    tz % 2 != 1
}

/// A range of memory: `size` bytes at `start`.
#[derive(Clone, Copy, Debug, PartialEq, Eq)]
pub struct MemoryRegion {
    pub start: usize,
    pub size: usize,
}

/// Where a byte request is served.
#[derive(Clone, Copy, Debug, PartialEq, Eq)]
pub enum AllocRoute {
    /// Served from the bump range, at this address.
    Bump(usize),
    /// Meant for the bump range, which has no room for it: the request
    /// fails with `NoMemory`.
    BumpExhausted,
    /// To be served by the pool.
    Pool,
}

/// The numbers that a lab allocator keeps.
pub struct LabState {
    /// Bytes that were given to the pool.
    pub total_bytes: int,
    /// Bytes that the pool has handed out and not got back.
    pub used_bytes: int,
    /// First address of the bump range.
    pub bump_start: int,
    /// One past the last address of the bump range.
    pub bump_end: int,
    /// First free address of the bump range.
    pub bump_current: int,
    /// Size of the latest request with alignment 1.
    pub last_size: int,
    /// Number of small requests that directly followed a large one.
    pub counter: int,
    /// Whether it was the pool that last ran out of memory, so that new
    /// memory goes to it.
    pub who_need_memory: bool,
}

/// The counter after a request has been looked at: a small request with
/// alignment 1 that follows a large one is counted.
pub open spec fn counter_after(s: LabState, size: usize, align: usize) -> int {
    if align == 1 && size < LARGE_REQUEST && s.last_size >= LARGE_REQUEST {
        s.counter + 1
    } else {
        s.counter
    }
}

/// Whether a request is meant for the bump range: its alignment is 1 and
/// its size less the counter has an even number of trailing zero bits.
pub open spec fn meant_for_bump(s: LabState, size: usize, align: usize) -> bool {
    align == 1 && is_64_family_spec((size - counter_after(s, size, align)) as usize)
}

/// Where a request is served.
pub open spec fn route_of(s: LabState, size: usize, align: usize) -> AllocRoute {
    if !meant_for_bump(s, size, align) {
        AllocRoute::Pool
    } else if s.bump_current + size > s.bump_end {
        AllocRoute::BumpExhausted
    } else {
        AllocRoute::Bump(s.bump_current as usize)
    }
}

/// The state after a request has been routed.
pub open spec fn state_after_route(s: LabState, size: usize, align: usize) -> LabState {
    let counted = LabState {
        counter: counter_after(s, size, align),
        last_size: if align == 1 {
            size as int
        } else {
            s.last_size
        },
        ..s
    };
    match route_of(s, size, align) {
        AllocRoute::Pool => counted,
        AllocRoute::BumpExhausted => LabState { who_need_memory: false, ..counted },
        AllocRoute::Bump(_) => LabState { bump_current: s.bump_current + size, ..counted },
    }
}

/// Whether a request can be routed: counting it does not overflow the
/// counter, and with alignment 1 the counter does not exceed the size.
pub open spec fn routable(s: LabState, size: usize, align: usize) -> bool {
    &&& counter_after(s, size, align) <= usize::MAX
    &&& align == 1 ==> counter_after(s, size, align) <= size
}

/// Whether a request can be served: it can be routed, and if it is the
/// pool's, counting its bytes as used does not overflow.
pub open spec fn servable(s: LabState, size: usize, align: usize) -> bool {
    &&& routable(s, size, align)
    &&& route_of(s, size, align) is Pool ==> s.used_bytes + size <= usize::MAX
}

/// What a request comes to once the pool has answered, if it was the pool's
/// to serve: the result of the request and the state it leaves.
pub open spec fn outcome_of(s: LabState, size: usize, align: usize, pool: Option<usize>) -> (
    Result<usize, AllocError>,
    LabState,
) {
    let routed = state_after_route(s, size, align);
    match route_of(s, size, align) {
        AllocRoute::Bump(address) => (Ok(address), routed),
        AllocRoute::BumpExhausted => (Err(AllocError::NoMemory), routed),
        AllocRoute::Pool => match pool {
            Some(address) => (
                Ok(address),
                LabState { used_bytes: routed.used_bytes + size, ..routed },
            ),
            None => (Err(AllocError::NoMemory), LabState { who_need_memory: true, ..routed }),
        },
    }
}

/// The lab allocator: a pool, a bump range, and the counts that steer
/// requests between them.
pub struct LabByteAllocator {
    inner: rlsf::Tlsf<'static, u32, u32, 28, 32>,
    total_bytes: usize,
    used_bytes: usize,
    bump_start: usize,
    bump_end: usize,
    bump_current: usize,
    last_size: usize,
    counter: usize,
    who_need_memory: bool,
}

impl View for LabByteAllocator {
    type V = LabState;

    closed spec fn view(&self) -> LabState {
        LabState {
            total_bytes: self.total_bytes as int,
            used_bytes: self.used_bytes as int,
            bump_start: self.bump_start as int,
            bump_end: self.bump_end as int,
            bump_current: self.bump_current as int,
            last_size: self.last_size as int,
            counter: self.counter as int,
            who_need_memory: self.who_need_memory,
        }
    }
}

impl LabState {
    /// Every number fits the machine word.
    pub open spec fn in_range(self) -> bool {
        &&& 0 <= self.total_bytes <= usize::MAX
        &&& 0 <= self.used_bytes <= usize::MAX
        &&& 0 <= self.bump_start <= usize::MAX
        &&& 0 <= self.bump_end <= usize::MAX
        &&& 0 <= self.bump_current <= usize::MAX
        &&& 0 <= self.last_size <= usize::MAX
        &&& 0 <= self.counter <= usize::MAX
    }
}

impl LabByteAllocator {
    /// The pool of the allocator.
    pub closed spec fn pool_spec(&self) -> rlsf::Tlsf<'static, u32, u32, 28, 32> {
        self.inner
    }

    /// An allocator that owns no memory yet: every count is zero, the bump
    /// range is empty, and the pool holds no free memory.
    pub fn new() -> (r: Self)
        ensures
            r@ == (LabState {
                total_bytes: 0,
                used_bytes: 0,
                bump_start: 0,
                bump_end: 0,
                bump_current: 0,
                last_size: 0,
                counter: 0,
                who_need_memory: false,
            }),
            pool_free(r.pool_spec()) == Set::<int>::empty(),
    {
        Self {
            inner: pool_new(),
            total_bytes: 0,
            used_bytes: 0,
            bump_start: 0,
            bump_end: 0,
            bump_current: 0,
            counter: 0,
            last_size: 0,
            who_need_memory: false,
        }
    }

    /// Splits the first range of memory: all but its last byte is returned,
    /// for the caller to give to the pool, and the last byte becomes the bump
    /// range.
    pub fn init(&mut self, start: usize, size: usize) -> (pool: MemoryRegion)
        requires
            size >= 1,
            start + size <= usize::MAX,
        ensures
            pool == (MemoryRegion { start, size: (size - 1) as usize }),
            final(self)@ == (LabState {
                total_bytes: size - 1,
                bump_start: start + size - 1,
                bump_end: start + size,
                bump_current: start + size - 1,
                ..old(self)@
            }),
            final(self).pool_spec() == old(self).pool_spec(),
    {
        let pool_size = size - 1;
        let bump_size = size - pool_size;
        self.total_bytes = pool_size;
        self.bump_start = start + pool_size;
        self.bump_end = self.bump_start + bump_size;
        self.bump_current = self.bump_start;
        MemoryRegion { start, size: pool_size }
    }

    /// Places a new range of memory. If the pool was the one to run out,
    /// the range is returned for the caller to give to the pool, and nothing
    /// changes until `pool_grown` reports the outcome. Otherwise the bump range takes it:
    /// a range that starts where the bump range ends extends it, any other
    /// range replaces it.
    pub fn add_memory(&mut self, start: usize, size: usize) -> (pool: Option<MemoryRegion>)
        requires
            !old(self)@.who_need_memory ==> start + size <= usize::MAX,
        ensures
            old(self)@.who_need_memory ==> pool == Some(MemoryRegion { start, size })
                && final(self)@ == old(self)@,
            !old(self)@.who_need_memory ==> pool.is_none(),
            !old(self)@.who_need_memory && old(self)@.bump_end != start ==> final(self)@ == (
            LabState {
                bump_start: start as int,
                bump_end: start + size,
                bump_current: start as int,
                ..old(self)@
            }),
            !old(self)@.who_need_memory && old(self)@.bump_end == start ==> final(self)@ == (
            LabState { bump_end: start + size, ..old(self)@ }),
            final(self).pool_spec() == old(self).pool_spec(),
    {
        if self.who_need_memory {
            Some(MemoryRegion { start, size })
        } else {
            if self.bump_end != start {
                self.bump_start = start;
                self.bump_end = self.bump_start + size;
                self.bump_current = self.bump_start;
            } else {
                self.bump_end = self.bump_end + size;
            }
            None
        }
    }

    /// Records how the pool took a range of `size` bytes that `add_memory`
    /// returned: taken, the pool has grown by `size`; refused, the addition
    /// fails with `InvalidParam`.
    pub fn pool_grown(&mut self, size: usize, inserted: bool) -> (r: Result<(), AllocError>)
        requires
            inserted ==> old(self)@.total_bytes + size <= usize::MAX,
        ensures
            inserted ==> r == Ok::<(), AllocError>(()) && final(self)@ == (LabState {
                total_bytes: old(self)@.total_bytes + size,
                ..old(self)@
            }),
            !inserted ==> r == Err::<(), AllocError>(AllocError::InvalidParam) && final(self)@
                == old(self)@,
            final(self).pool_spec() == old(self).pool_spec(),
    {
        if !inserted {
            return Err(AllocError::InvalidParam);
        }
        self.total_bytes = self.total_bytes + size;
        Ok(())
    }

    /// The pool, for the caller to give memory to and to take blocks back
    /// from. What is handed out is the pool of the allocator as it stands,
    /// and what the caller leaves behind is the allocator's pool from then
    /// on. The counts do not change.
    pub fn pool_mut(&mut self) -> (pool: &mut rlsf::Tlsf<'static, u32, u32, 28, 32>)
        ensures
            *pool == old(self).pool_spec(),
            final(self).pool_spec() == *final(pool),
            final(self)@ == old(self)@,
    {
        &mut self.inner
    }

    /// Routes a request for `size` bytes aligned to `align`. A small request
    /// with alignment 1 right after a large one raises the counter. A request
    /// with alignment 1 whose size less the counter has an even number of
    /// trailing zero bits is meant for the bump range, which serves it or is
    /// full. Every other request is the pool's.
    pub fn route(&mut self, size: usize, align: usize) -> (route: AllocRoute)
        requires
            routable(old(self)@, size, align),
        ensures
            route == route_of(old(self)@, size, align),
            final(self)@ == state_after_route(old(self)@, size, align),
            final(self).pool_spec() == old(self).pool_spec(),
    {
        if align == 1 && size < LARGE_REQUEST && self.last_size >= LARGE_REQUEST {
            self.counter = self.counter + 1;
        }
        if align == 1 {
            self.last_size = size;
            if is_64_family(size - self.counter) {
                let fits = match self.bump_current.checked_add(size) {
                    Some(new_current) => new_current <= self.bump_end,
                    None => false,
                };
                if !fits {
                    self.who_need_memory = false;
                    return AllocRoute::BumpExhausted;
                }
                let result = self.bump_current;
                self.bump_current = self.bump_current + size;
                return AllocRoute::Bump(result);
            }
        }
        AllocRoute::Pool
    }

    /// Records what the pool did with a request of `size` bytes that was
    /// routed to it: a block at `block`, and the bytes count as used; none,
    /// and the pool is marked as the one in need of memory and the request
    /// fails with `NoMemory`.
    pub fn pool_allocated(&mut self, size: usize, block: Option<usize>) -> (r: Result<
        usize,
        AllocError,
    >)
        requires
            block is Some ==> old(self)@.used_bytes + size <= usize::MAX,
        ensures
            block matches Some(address) ==> r == Ok::<usize, AllocError>(address) && final(self)@
                == (LabState { used_bytes: old(self)@.used_bytes + size, ..old(self)@ }),
            block is None ==> r == Err::<usize, AllocError>(AllocError::NoMemory) && final(self)@
                == (LabState { who_need_memory: true, ..old(self)@ }),
            final(self).pool_spec() == old(self).pool_spec(),
    {
        match block {
            None => {
                self.who_need_memory = true;
                Err(AllocError::NoMemory)
            },
            Some(address) => {
                self.used_bytes = self.used_bytes + size;
                Ok(address)
            },
        }
    }

    /// Whether `alloc_bytes` can be asked for `size` bytes aligned to `align`
    /// in the present state.
    pub fn is_servable(&self, size: usize, align: usize) -> (ok: bool)
        ensures
            ok == servable(self@, size, align),
    {
        let counts = align == 1 && size < LARGE_REQUEST && self.last_size >= LARGE_REQUEST;
        if counts && self.counter == usize::MAX {
            return false;
        }
        let counter = if counts {
            self.counter + 1
        } else {
            self.counter
        };
        if align == 1 {
            if counter > size {
                return false;
            }
            if is_64_family(size - counter) {
                return true;
            }
        }
        self.used_bytes.checked_add(size).is_some()
    }

    /// Allocates `size` bytes aligned to `align` and returns their address.
    /// The request is routed as `route` says. What the bump range serves or
    /// refuses is settled by the state alone, and leaves the pool alone. What
    /// goes to the pool succeeds or fails with the pool, and the state
    /// records which: a block that the pool gives comes out of its free
    /// memory, and a pool without free memory gives none.
    pub fn alloc_bytes(&mut self, size: usize, align: usize) -> (r: Result<usize, AllocError>)
        requires
            servable(old(self)@, size, align),
        ensures
            exists|pool: Option<usize>|
                (r, final(self)@) == #[trigger] outcome_of(old(self)@, size, align, pool),
            !(route_of(old(self)@, size, align) is Pool) ==> (r, final(self)@) == outcome_of(
                old(self)@,
                size,
                align,
                None,
            ),
            r matches Err(e) ==> e == AllocError::NoMemory,
            !(route_of(old(self)@, size, align) is Pool) ==> final(self).pool_spec() == old(
                self,
            ).pool_spec(),
            route_of(old(self)@, size, align) is Pool ==> (r matches Ok(address) ==> block_taken(
                pool_free(old(self).pool_spec()),
                pool_free(final(self).pool_spec()),
                address as int,
                size as int,
            )),
            route_of(old(self)@, size, align) is Pool && r is Err ==> pool_free(
                final(self).pool_spec(),
            ) == pool_free(old(self).pool_spec()),
            route_of(old(self)@, size, align) is Pool && pool_free(old(self).pool_spec())
                == Set::<int>::empty() ==> r is Err,
    {
        let ghost before = self@;
        match self.route(size, align) {
            AllocRoute::Bump(address) => {
                assert((Ok::<usize, AllocError>(address), self@) == outcome_of(
                    before,
                    size,
                    align,
                    None,
                ));
                Ok(address)
            },
            AllocRoute::BumpExhausted => {
                assert((Err::<usize, AllocError>(AllocError::NoMemory), self@) == outcome_of(
                    before,
                    size,
                    align,
                    None,
                ));
                Err(AllocError::NoMemory)
            },
            AllocRoute::Pool => {
                let block = pool_allocate(&mut self.inner, size, align);
                let r = self.pool_allocated(size, block);
                assert((r, self@) == outcome_of(before, size, align, block));
                r
            },
        }
    }

    /// Records that the caller gave a block of `size` bytes back to the pool.
    pub fn dealloc(&mut self, size: usize)
        requires
            size <= old(self)@.used_bytes,
        ensures
            final(self)@ == (LabState {
                used_bytes: old(self)@.used_bytes - size,
                ..old(self)@
            }),
            final(self).pool_spec() == old(self).pool_spec(),
    {
        self.used_bytes = self.used_bytes - size;
    }

    /// Bytes that were given to the pool.
    pub fn total_bytes(&self) -> (r: usize)
        ensures
            r == self@.total_bytes,
            self@.in_range(),
    {
        self.total_bytes
    }

    /// Bytes that the pool has handed out and not got back.
    pub fn used_bytes(&self) -> (r: usize)
        ensures
            r == self@.used_bytes,
            self@.in_range(),
    {
        self.used_bytes
    }

    /// Bytes of the pool that are not handed out.
    pub fn available_bytes(&self) -> (r: usize)
        requires
            self@.used_bytes <= self@.total_bytes,
        ensures
            r == self@.total_bytes - self@.used_bytes,
    {
        self.total_bytes - self.used_bytes
    }
}

} // verus!
