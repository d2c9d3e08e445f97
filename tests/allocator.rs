use bump::bump::{align_up, AllocError, Allocator};
use bump::lock::Locked;

fn state(a: &Allocator) -> (usize, usize) {
    (a.next(), a.allocations())
}

fn region() -> Allocator {
    let mut a = Allocator::new();
    a.init(0x1000, 0x100);
    a
}

#[test]
fn new_is_empty() {
    let a = Allocator::new();
    assert_eq!((a.heap_start(), a.heap_end(), a.next(), a.allocations()), (0, 0, 0, 0));
}

#[test]
fn init_sets_region() {
    let a = region();
    assert_eq!(a.heap_start(), 0x1000);
    assert_eq!(a.heap_end(), 0x1100);
    assert_eq!(state(&a), (0x1000, 0));
}

#[test]
fn epoch_walkthrough() {
    let mut a = region();
    assert_eq!(a.allocate(16, 8), Ok(0x1000));
    assert_eq!(state(&a), (0x1010, 1));
    assert_eq!(a.allocate(32, 16), Ok(0x1010));
    assert_eq!(state(&a), (0x1030, 2));
    assert!(a.free());
    assert_eq!(state(&a), (0x1030, 1));
    assert!(a.free());
    assert_eq!(state(&a), (0x1000, 0));
    assert_eq!(a.allocate(0x200, 1), Err(AllocError::OutOfMemory));
    assert_eq!(state(&a), (0x1000, 0));
}

#[test]
fn allocation_starts_at_aligned_cursor() {
    let mut a = region();
    assert_eq!(a.allocate(3, 1), Ok(0x1000));
    assert_eq!(a.allocate(8, 16), Ok(0x1010));
    assert_eq!(state(&a), (0x1018, 2));
    assert_eq!(a.allocate(1, 8), Ok(0x1018));
    assert_eq!(state(&a), (0x1019, 3));
}

#[test]
fn blocks_of_one_epoch_do_not_overlap() {
    let mut a = region();
    let sizes: [usize; 4] = [5, 17, 1, 40];
    let aligns: [usize; 4] = [1, 8, 4, 32];
    let mut blocks = Vec::new();
    for k in 0..4 {
        let p = a.allocate(sizes[k], aligns[k]).unwrap();
        assert_eq!(p % aligns[k], 0);
        blocks.push((p, sizes[k]));
    }
    for i in 0..blocks.len() {
        for j in (i + 1)..blocks.len() {
            let (a1, s1) = blocks[i];
            let (a2, s2) = blocks[j];
            assert!(a1 + s1 <= a2 || a2 + s2 <= a1);
        }
    }
}

#[test]
fn whole_region_fits_exactly() {
    let mut a = region();
    assert_eq!(a.allocate(0x100, 1), Ok(0x1000));
    assert_eq!(state(&a), (0x1100, 1));
    assert_eq!(a.allocate(1, 1), Err(AllocError::OutOfMemory));
    assert_eq!(a.allocate(0, 1), Ok(0x1100));
    assert_eq!(state(&a), (0x1100, 2));
}

#[test]
fn out_of_memory_leaves_state() {
    let mut a = region();
    assert_eq!(a.allocate(0x10, 1), Ok(0x1000));
    assert_eq!(a.allocate(0xf1, 1), Err(AllocError::OutOfMemory));
    assert_eq!(state(&a), (0x1010, 1));
    assert_eq!(a.allocate(0xf0, 1), Ok(0x1010));
}

#[test]
fn padding_pushes_block_past_end() {
    let mut a = region();
    assert_eq!(a.allocate(1, 1), Ok(0x1000));
    assert_eq!(a.allocate(0xf0, 0x20), Err(AllocError::OutOfMemory));
    assert_eq!(state(&a), (0x1001, 1));
}

#[test]
fn end_overflow_is_reported() {
    let mut a = Allocator::new();
    a.init(usize::MAX - 0x10, 0x10);
    assert_eq!(a.allocate(0x20, 1), Err(AllocError::MemAddrOverflow));
    assert_eq!(a.allocate(usize::MAX, 1), Err(AllocError::MemAddrOverflow));
    assert_eq!(state(&a), (usize::MAX - 0x10, 0));
}

#[test]
fn alignment_overflow_is_reported() {
    let mut a = Allocator::new();
    a.init(usize::MAX - 0x10, 0x10);
    assert_eq!(a.allocate(0, 0x100), Err(AllocError::MemAddrOverflow));
    assert_eq!(a.allocate(0, 1), Ok(usize::MAX - 0x10));
}

#[test]
fn zero_size_allocations() {
    let mut a = region();
    assert_eq!(a.allocate(0, 8), Ok(0x1000));
    assert_eq!(a.allocate(0, 8), Ok(0x1000));
    assert_eq!(state(&a), (0x1000, 2));
    assert_eq!(a.allocate(1, 1), Ok(0x1000));
    assert_eq!(a.allocate(0, 16), Ok(0x1010));
    assert_eq!(state(&a), (0x1010, 4));
}

#[test]
fn free_without_allocation_is_refused() {
    let mut a = region();
    assert!(!a.free());
    assert_eq!(state(&a), (0x1000, 0));
}

#[test]
fn reset_only_when_drained() {
    let mut a = region();
    a.allocate(8, 8).unwrap();
    a.allocate(8, 8).unwrap();
    a.allocate(8, 8).unwrap();
    assert!(a.free());
    assert!(a.free());
    assert_eq!(state(&a), (0x1018, 1));
    assert_eq!(a.allocate(8, 8), Ok(0x1018));
    assert!(a.free());
    assert!(a.free());
    assert_eq!(state(&a), (0x1000, 0));
    assert_eq!(a.allocate(8, 8), Ok(0x1000));
}

#[test]
fn align_up_values() {
    assert_eq!(align_up(0x1010, 16), Some(0x1010));
    assert_eq!(align_up(0x1011, 16), Some(0x1020));
    assert_eq!(align_up(0, 8), Some(0));
    assert_eq!(align_up(7, 1), Some(7));
    assert_eq!(align_up(9, 4), Some(12));
    assert_eq!(align_up(usize::MAX, 1), Some(usize::MAX));
    assert_eq!(align_up(usize::MAX, 2), None);
    assert_eq!(align_up(usize::MAX - 1, 2), Some(usize::MAX - 1));
}

#[test]
fn locked_epoch_walkthrough() {
    let heap = Locked::new(Allocator::new());
    heap.init(0x1000, 0x100);
    assert_eq!(heap.allocate(16, 8), Ok(0x1000));
    assert_eq!(heap.allocate(32, 16), Ok(0x1010));
    assert!(heap.free());
    assert!(heap.free());
    assert!(!heap.free());
    assert_eq!(heap.allocate(0x200, 1), Err(AllocError::OutOfMemory));
    assert_eq!(heap.allocate(0x100, 1), Ok(0x1000));
}

#[test]
fn locked_before_init_has_no_room() {
    let heap = Locked::new(Allocator::new());
    assert_eq!(heap.allocate(1, 1), Err(AllocError::OutOfMemory));
    assert_eq!(heap.allocate(0, 1), Ok(0));
}
