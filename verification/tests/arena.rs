use pico2_quick::arena::{ArenaError, HeapArena};

const HEAP_SIZE: usize = 440 * 1024;

#[test]
fn an_arena_starts_without_a_region() {
    let mut arena = HeapArena::empty();
    assert!(!arena.is_initialized());
    assert_eq!(arena.capacity_bytes(), 0);
    assert_eq!(arena.used_bytes(), 0);
    assert_eq!(arena.remaining_bytes(), 0);
    assert_eq!(arena.allocate(1), Err(ArenaError::Uninitialized));
    assert_eq!(arena.allocate(0), Err(ArenaError::Uninitialized));
}

#[test]
fn the_region_is_handed_over_once() {
    let mut arena = HeapArena::empty();
    assert_eq!(arena.init(HEAP_SIZE), Ok(()));
    assert!(arena.is_initialized());
    assert_eq!(arena.capacity_bytes(), HEAP_SIZE);
    assert_eq!(arena.used_bytes(), 0);
    assert_eq!(arena.init(HEAP_SIZE), Err(ArenaError::AlreadyInitialized));
    assert_eq!(arena.init(1), Err(ArenaError::AlreadyInitialized));
    assert_eq!(arena.init(0), Err(ArenaError::AlreadyInitialized));
    assert_eq!(arena.capacity_bytes(), HEAP_SIZE);
}

#[test]
fn a_region_without_bytes_is_no_region() {
    let mut arena = HeapArena::empty();
    assert_eq!(arena.init(0), Err(ArenaError::EmptyRegion));
    assert!(!arena.is_initialized());
    assert_eq!(arena.init(16), Ok(()));
    assert_eq!(arena.capacity_bytes(), 16);
}

#[test]
fn allocations_never_exceed_the_region() {
    let mut arena = HeapArena::empty();
    assert_eq!(arena.init(100), Ok(()));
    assert_eq!(arena.allocate(40), Ok(0));
    assert_eq!(arena.allocate(0), Ok(40));
    assert_eq!(arena.allocate(60), Ok(40));
    assert_eq!(arena.used_bytes(), 100);
    assert_eq!(arena.remaining_bytes(), 0);
    assert_eq!(arena.allocate(1), Err(ArenaError::Exhausted));
    assert_eq!(arena.allocate(0), Ok(100));
    assert_eq!(arena.used_bytes(), 100);
    assert_eq!(arena.capacity_bytes(), 100);
}

#[test]
fn a_refused_allocation_changes_nothing() {
    let mut arena = HeapArena::empty();
    assert_eq!(arena.init(HEAP_SIZE), Ok(()));
    assert_eq!(arena.allocate(32 * 1024), Ok(0));
    assert_eq!(arena.allocate(HEAP_SIZE), Err(ArenaError::Exhausted));
    assert_eq!(arena.allocate(usize::MAX), Err(ArenaError::Exhausted));
    assert_eq!(arena.used_bytes(), 32 * 1024);
    assert_eq!(arena.remaining_bytes(), HEAP_SIZE - 32 * 1024);
    assert_eq!(arena.allocate(HEAP_SIZE - 32 * 1024), Ok(32 * 1024));
    assert_eq!(arena.remaining_bytes(), 0);
}
