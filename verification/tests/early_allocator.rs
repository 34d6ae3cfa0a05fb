use simple_hv::align::{align_down, align_up};
use simple_hv::bump_allocator::EarlyAllocator;
use simple_hv::error::AllocError;

const BASE: usize = 0x10_0000;
const SIZE: usize = 0x10_0000;

fn fresh() -> EarlyAllocator<4096> {
    let mut a = EarlyAllocator::<4096>::new();
    a.init(BASE, SIZE);
    a
}

#[test]
fn align_down_clears_the_low_bits() {
    assert_eq!(align_down(0x1234, 0x1000), 0x1000);
    assert_eq!(align_down(0x1000, 0x1000), 0x1000);
    assert_eq!(align_down(0xfff, 0x1000), 0);
    assert_eq!(align_down(17, 1), 17);
    assert_eq!(align_down(17, 8), 16);
    assert_eq!(align_down(usize::MAX, 2), usize::MAX - 1);
    assert_eq!(align_down(0, 64), 0);
}

#[test]
fn align_up_rounds_to_the_next_multiple() {
    assert_eq!(align_up(0x1234, 0x1000), 0x2000);
    assert_eq!(align_up(0x1000, 0x1000), 0x1000);
    assert_eq!(align_up(1, 0x1000), 0x1000);
    assert_eq!(align_up(0, 0x1000), 0);
    assert_eq!(align_up(17, 1), 17);
    assert_eq!(align_up(17, 8), 24);
    assert_eq!(align_up(usize::MAX, 1), usize::MAX);
}

#[test]
fn align_with_a_mask_that_is_no_power_of_two() {
    // align - 1 == 0b10: only bit 1 is cleared
    assert_eq!(align_down(7, 3), 5);
    assert_eq!(align_up(5, 3), 5);
    assert_eq!(align_up(6, 3), 8);
}

#[test]
fn new_allocator_is_empty() {
    let a = EarlyAllocator::<4096>::new();
    assert_eq!(a.total_bytes(), 0);
    assert_eq!(a.used_bytes(), 0);
    assert_eq!(a.available_bytes(), 0);
    assert_eq!(a.total_pages(), 0);
    assert_eq!(a.used_pages(), 0);
    assert_eq!(a.available_pages(), 0);
    assert_eq!(a.live_allocations(), 0);
    assert!(a.can_alloc_bytes(0, 1));
    assert!(!a.can_alloc_bytes(1, 1));
}

#[test]
fn init_takes_the_whole_range() {
    let a = fresh();
    assert_eq!(a.total_bytes(), SIZE);
    assert_eq!(a.used_bytes(), 0);
    assert_eq!(a.available_bytes(), SIZE);
    assert_eq!(a.total_pages(), 256);
    assert_eq!(a.used_pages(), 0);
    assert_eq!(a.available_pages(), 256);
}

#[test]
fn bytes_grow_upward_from_the_start() {
    let mut a = fresh();
    assert_eq!(a.alloc_bytes(10, 1), Ok(BASE));
    assert_eq!(a.alloc_bytes(4, 8), Ok(BASE + 16));
    assert_eq!(a.alloc_bytes(1, 1), Ok(BASE + 20));
    assert_eq!(a.alloc_bytes(0, 0x1000), Ok(BASE + 0x1000));
    assert_eq!(a.used_bytes(), 0x1000);
    assert_eq!(a.available_bytes(), SIZE - 0x1000);
    assert_eq!(a.live_allocations(), 4);
}

#[test]
fn bytes_that_do_not_fit_are_refused() {
    let mut a = fresh();
    assert_eq!(a.alloc_bytes(SIZE + 1, 1), Err(AllocError::NoMemory));
    assert_eq!(a.used_bytes(), 0);
    assert_eq!(a.live_allocations(), 0);
    assert_eq!(a.alloc_bytes(SIZE, 1), Ok(BASE));
    assert_eq!(a.available_bytes(), 0);
    assert_eq!(a.alloc_bytes(1, 1), Err(AllocError::NoMemory));
    assert_eq!(a.alloc_bytes(0, 1), Ok(BASE + SIZE));
    assert_eq!(a.alloc_bytes(usize::MAX, 1), Err(AllocError::NoMemory));
}

#[test]
fn can_alloc_bytes_counts_the_padding() {
    let mut a = fresh();
    assert_eq!(a.alloc_bytes(1, 1), Ok(BASE));
    assert!(a.can_alloc_bytes(SIZE - 1, 1));
    assert!(!a.can_alloc_bytes(SIZE - 1, 2));
    assert!(a.can_alloc_bytes(SIZE - 2, 2));
    assert!(!a.can_alloc_bytes(1, usize::MAX));
    assert!(!a.can_alloc_bytes(usize::MAX, 8));
}

#[test]
fn last_dealloc_frees_the_byte_area() {
    let mut a = fresh();
    let p1 = a.alloc_bytes(100, 8).unwrap();
    let p2 = a.alloc_bytes(100, 8).unwrap();
    assert_eq!(a.used_bytes(), 204);
    a.dealloc(p1, 100, 8);
    assert_eq!(a.used_bytes(), 204);
    assert_eq!(a.live_allocations(), 1);
    a.dealloc(p2, 100, 8);
    assert_eq!(a.used_bytes(), 0);
    assert_eq!(a.live_allocations(), 0);
    assert_eq!(a.alloc_bytes(1, 1), Ok(BASE));
}

#[test]
fn pages_grow_downward_from_the_end() {
    let mut a = fresh();
    assert_eq!(a.alloc_pages(1, 4096), Ok(BASE + SIZE - 0x1000));
    assert_eq!(a.alloc_pages(2, 4096), Ok(BASE + SIZE - 0x3000));
    assert_eq!(a.used_pages(), 3);
    assert_eq!(a.available_pages(), 253);
    assert_eq!(a.total_pages(), 256);
    assert_eq!(a.alloc_pages(1, 0x10000), Ok(BASE + SIZE - 0x10000));
    assert_eq!(a.used_pages(), 16);
    assert_eq!(a.alloc_pages(0, 4096), Ok(BASE + SIZE - 0x10000));
}

#[test]
fn page_alignment_must_be_a_multiple_of_the_page_size() {
    let mut a = fresh();
    assert_eq!(a.alloc_pages(1, 1), Err(AllocError::InvalidParam));
    assert_eq!(a.alloc_pages(1, 2048), Err(AllocError::InvalidParam));
    assert_eq!(a.alloc_pages(1, 4097), Err(AllocError::InvalidParam));
    assert_eq!(a.alloc_pages(usize::MAX, 100), Err(AllocError::InvalidParam));
    assert_eq!(a.used_pages(), 0);
}

#[test]
fn pages_that_do_not_fit_are_refused() {
    let mut a = fresh();
    assert_eq!(a.alloc_pages(257, 4096), Err(AllocError::NoMemory));
    assert_eq!(a.alloc_pages(usize::MAX, 4096), Err(AllocError::NoMemory));
    assert_eq!(a.alloc_pages(usize::MAX / 4096 + 1, 4096), Err(AllocError::NoMemory));
    assert_eq!(a.alloc_bytes(1, 1), Ok(BASE));
    assert_eq!(a.alloc_pages(256, 4096), Err(AllocError::NoMemory));
    assert_eq!(a.alloc_pages(255, 4096), Ok(BASE + 0x1000));
    assert_eq!(a.available_bytes(), 0xfff);
    assert_eq!(a.alloc_pages(1, 4096), Err(AllocError::NoMemory));
    assert_eq!(a.available_pages(), 0);
}

#[test]
fn bytes_and_pages_meet_in_the_middle() {
    let mut a = EarlyAllocator::<4096>::new();
    a.init(0x1000, 0x2000);
    assert_eq!(a.alloc_pages(1, 4096), Ok(0x2000));
    assert_eq!(a.alloc_bytes(0x1000, 1), Ok(0x1000));
    assert_eq!(a.available_bytes(), 0);
    assert_eq!(a.alloc_bytes(1, 1), Err(AllocError::NoMemory));
    assert_eq!(a.alloc_pages(1, 4096), Err(AllocError::NoMemory));
}

#[test]
fn dealloc_pages_changes_nothing() {
    let mut a = fresh();
    let p = a.alloc_pages(4, 4096).unwrap();
    a.dealloc_pages(p, 4);
    assert_eq!(a.used_pages(), 4);
    assert_eq!(a.available_pages(), 252);
}

#[test]
fn add_memory_is_always_refused() {
    let mut a = fresh();
    assert_eq!(a.add_memory(BASE + SIZE, 0x1000), Err(AllocError::NoMemory));
    assert_eq!(a.add_memory(0, 0), Err(AllocError::NoMemory));
    assert_eq!(a.total_bytes(), SIZE);
}

#[test]
fn init_again_forgets_everything() {
    let mut a = fresh();
    a.alloc_bytes(64, 8).unwrap();
    a.alloc_pages(3, 4096).unwrap();
    a.init(0x4000, 0x4000);
    assert_eq!(a.total_bytes(), 0x4000);
    assert_eq!(a.used_bytes(), 0);
    assert_eq!(a.used_pages(), 0);
    assert_eq!(a.live_allocations(), 0);
    assert_eq!(a.alloc_bytes(1, 1), Ok(0x4000));
}

#[test]
fn other_page_sizes() {
    let mut a = EarlyAllocator::<16>::new();
    a.init(100, 100);
    assert_eq!(a.total_pages(), 6);
    assert_eq!(a.alloc_pages(1, 16), Ok(176));
    assert_eq!(a.alloc_pages(1, 32), Ok(160));
    assert_eq!(a.alloc_pages(1, 8), Err(AllocError::InvalidParam));
    assert_eq!(a.used_pages(), 2);
}
