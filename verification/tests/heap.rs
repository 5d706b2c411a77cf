use regvm::vm::heap::{Heap, HeapError};

#[test]
fn test_heap() {
    let mut mut_heap = Heap::new(100);
    let ptr = mut_heap.allocate(10).unwrap();
    mut_heap.write(ptr, &[10]).unwrap();
    assert_eq!(mut_heap.read(ptr), Some(10));
    mut_heap.deallocate(ptr, 10).unwrap();
}

#[test]
#[should_panic]
fn should_panic_when_deallocate_heap_out_of_bounds() {
    let mut mut_heap = Heap::new(100);
    let ptr = mut_heap.allocate(10).unwrap();
    mut_heap.deallocate(ptr, 100).unwrap();
}

#[test]
fn first_fit_takes_the_first_block_that_is_large_enough() {
    let mut heap = Heap::new(100);
    let a = heap.allocate(10).unwrap();
    let b = heap.allocate(20).unwrap();
    let c = heap.allocate(10).unwrap();
    assert_eq!((a, b, c), (0, 10, 30));
    heap.deallocate(a, 10).unwrap();
    heap.deallocate(c, 10).unwrap();
    // The hole of ten bytes at the start is too small; the free space
    // behind the second allocation is taken.
    assert_eq!(heap.allocate(12), Ok(30));
    assert_eq!(heap.allocate(10), Ok(0));
}

#[test]
fn freed_neighbours_are_merged() {
    let mut heap = Heap::new(64);
    let a = heap.allocate(16).unwrap();
    let b = heap.allocate(16).unwrap();
    let c = heap.allocate(16).unwrap();
    let d = heap.allocate(16).unwrap();
    assert_eq!(heap.allocate(1), Err(HeapError::OutOfMemory));
    heap.deallocate(b, 16).unwrap();
    heap.deallocate(c, 16).unwrap();
    assert_eq!(heap.allocate(32), Ok(16));
    heap.deallocate(a, 16).unwrap();
    heap.deallocate(d, 16).unwrap();
    heap.deallocate(16, 32).unwrap();
    assert_eq!(heap.allocate(64), Ok(0));
}

#[test]
fn contains_tells_live_base_addresses() {
    let mut heap = Heap::new(100);
    let a = heap.allocate(7).unwrap();
    assert!(heap.contains(a));
    assert!(!heap.contains(a + 1));
    assert_eq!(heap.size_of(a), Some(7));
    heap.deallocate(a, 7).unwrap();
    assert!(!heap.contains(a));
    assert_eq!(heap.size_of(a), None);
    assert_eq!(heap.deallocate(a, 7), Err(HeapError::NotLive));
}

#[test]
fn deallocate_tells_its_errors_apart() {
    let mut heap = Heap::new(100);
    let a = heap.allocate(8).unwrap();
    assert_eq!(heap.deallocate(a, 9), Err(HeapError::SizeMismatch));
    assert_eq!(heap.deallocate(100, 8), Err(HeapError::OutOfBounds));
    assert_eq!(heap.deallocate(50, 8), Err(HeapError::NotLive));
    assert_eq!(heap.deallocate(a, 8), Ok(()));
}

#[test]
fn sizes_are_rounded_up_to_the_alignment() {
    let mut heap = Heap::new(100);
    assert_eq!(heap.allocate(0), Ok(0));
    assert_eq!(heap.allocate(3), Ok(2));
    assert_eq!(heap.allocate(1), Ok(6));
    assert_eq!(heap.allocate(usize::MAX), Err(HeapError::OutOfMemory));
    assert_eq!(heap.allocate(93), Err(HeapError::OutOfMemory));
    assert_eq!(heap.allocate(92), Ok(8));
}

#[test]
fn write_and_read_in_the_arena() {
    let mut heap = Heap::new(10);
    assert_eq!(heap.capacity(), 10);
    assert_eq!(heap.write(8, &[1, 2]), Ok(()));
    assert_eq!(heap.write(9, &[1, 2]), Err(HeapError::OutOfBounds));
    assert_eq!(heap.read(8), Some(1));
    assert_eq!(heap.read(9), Some(2));
    assert_eq!(heap.read(10), None);
    assert_eq!(heap.read_range(7, 3), Some(vec![0, 1, 2]));
    assert_eq!(heap.read_range(7, 4), None);
    heap.reset();
    assert_eq!(heap.read_range(0, 10), Some(vec![0; 10]));
}
