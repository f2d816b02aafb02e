use tato::arena::{TempArena, TempArenaError};

#[test]
fn test_basic_allocation() {
    let mut arena: TempArena<1024, u32> = TempArena::new();

    // Allocate single values
    let id1 = arena.alloc_value(42i32).unwrap();
    let id2 = arena.alloc_value(314i64).unwrap();

    // Check values
    assert_eq!(arena.get(id1).unwrap(), 42);
    assert_eq!(arena.get(id2).unwrap(), 314);
}

#[test]
fn test_mutable_access() {
    let mut arena: TempArena<1024, u32> = TempArena::new();

    let id = arena.alloc_value(10i32).unwrap();

    // Modify the value
    arena.set(id, 20).unwrap();

    // Check new value
    assert_eq!(arena.get(id).unwrap(), 20);
}

#[test]
fn test_slice_from_fn() {
    let mut arena: TempArena<1024, u32> = TempArena::new();

    let slice_id = arena.alloc_slice_from_fn(5, |i| (i * 2) as u64).unwrap();

    let slice = arena.get_slice(slice_id).unwrap();
    assert_eq!(slice, &[0, 2, 4, 6, 8]);
}

#[test]
fn test_slice_from_iter() {
    let mut arena: TempArena<1024, u32> = TempArena::new();

    let data = [10, 20, 30, 40];
    let slice_id = arena.alloc_slice_from_iter(&data).unwrap();

    let slice = arena.get_slice(slice_id).unwrap();
    assert_eq!(slice, &[10, 20, 30, 40]);
}

#[test]
fn test_different_index_types() {
    let mut arena_u8: TempArena<255, u8> = TempArena::new();
    let mut arena_u16: TempArena<1024, u16> = TempArena::new();

    // u8 index for small buffers
    let id_u8 = arena_u8.alloc_value(100i32).unwrap();
    assert_eq!(arena_u8.get(id_u8).unwrap(), 100);

    // u16 index
    let id_u16 = arena_u16.alloc_value(200i32).unwrap();
    assert_eq!(arena_u16.get(id_u16).unwrap(), 200);
}

#[test]
fn test_new_arena_per_scope() {
    // First scope
    {
        let mut arena: TempArena<1024, u32> = TempArena::new();
        let _id = arena.alloc_value(42i32).unwrap();
        assert!(arena.used() > 0);
    }

    // New scope with fresh arena
    {
        let mut arena: TempArena<1024, u32> = TempArena::new();
        let new_id = arena.alloc_value(84i32).unwrap();
        assert_eq!(new_id.offset(), 0); // Fresh arena starts at 0
        assert_eq!(arena.get(new_id).unwrap(), 84);
    }
}

#[test]
fn test_out_of_space() {
    let mut arena: TempArena<16, u32> = TempArena::new(); // Very small buffer

    // Fill up the buffer
    let _id1 = arena.alloc_value(1u64).unwrap();
    let _id2 = arena.alloc_value(2u64).unwrap();

    // This should fail - not enough space
    let result = arena.alloc_value(3u64);
    assert!(result.is_err());
}

#[test]
fn test_alignment() {
    let mut arena: TempArena<1024, u32> = TempArena::new();

    // Allocate a u8 to make offset misaligned
    let _small = arena.alloc_value(1u8).unwrap();

    // Allocate u64 (8-byte aligned)
    let id = arena.alloc_value(0x123456789ABCDEF0u64).unwrap();

    // Should be properly aligned
    assert_eq!(id.offset() % 8, 0);
    assert_eq!(arena.get(id).unwrap(), 0x123456789ABCDEF0);
}

#[test]
fn test_capacity_tracking() {
    let mut arena: TempArena<1024, u32> = TempArena::new();

    // Initial state
    assert_eq!(arena.used(), 0);
    assert_eq!(arena.remaining(), 1024);
    assert_eq!(arena.capacity(), 1024);

    // Allocate something
    let _id = arena.alloc_value(42i32).unwrap();

    // Check capacity tracking
    assert!(arena.used() > 0);
    assert!(arena.remaining() < 1024);
    assert_eq!(arena.capacity(), 1024);

    // Create new arena to simulate reset
    let fresh_arena: TempArena<1024, u32> = TempArena::new();
    assert_eq!(fresh_arena.used(), 0);
    assert_eq!(fresh_arena.remaining(), 1024);
}

#[test]
fn test_multiple_slice_types() {
    let mut arena: TempArena<1024, u32> = TempArena::new();

    // Different slice types
    let int_slice = arena.alloc_slice_from_fn(3, |i| i as i32).unwrap();
    let byte_slice = arena.alloc_slice_from_fn(2, |i| i as u8 + 5).unwrap();

    // Check values
    assert_eq!(arena.get_slice(int_slice).unwrap(), &[0, 1, 2]);
    assert_eq!(arena.get_slice(byte_slice).unwrap(), &[5, 6]);
}

#[test]
fn test_error_types() {
    let mut arena: TempArena<16, u8> = TempArena::new(); // Very small buffer with u8 index

    // Test OutOfSpace error
    let _id1 = arena.alloc_value(1u64).unwrap(); // 8 bytes
    let _id2 = arena.alloc_value(2u64).unwrap(); // 8 more bytes (16 total)

    let result = arena.alloc_value(3u64); // Should fail - needs 8 more bytes
    match result {
        Err(TempArenaError::OutOfSpace { requested, available }) => {
            assert_eq!(requested, 8);
            assert_eq!(available, 0);
        },
        _ => panic!("Expected OutOfSpace error"),
    }

    // Test IndexConversion error with a buffer larger than u8 can address
    let mut big_arena: TempArena<300, u8> = TempArena::new();

    // Fill up past u8::MAX (255) to trigger IndexConversion
    let mut bytes_allocated = 0;
    while bytes_allocated < 250 {
        let _ = big_arena.alloc_value(0u64).unwrap(); // 8 bytes each
        bytes_allocated += 8;
    }

    // The next offset, 256, does not fit a u8 index
    let result = big_arena.alloc_value(0u64);
    assert_eq!(result.err(), Some(TempArenaError::IndexConversion));
}

#[test]
fn test_initialized_slice_access() {
    let mut arena: TempArena<1024, u32> = TempArena::new();

    // Test initialized slice (from iterator)
    let slice_id = arena.alloc_slice_from_iter(&[10, 20, 30]).unwrap();

    // Can get as regular slice
    let slice = arena.get_slice(slice_id).unwrap();
    assert_eq!(slice, &[10, 20, 30]);

    // Can change one value of the slice
    arena.set_slice_item(slice_id, 1, 99).unwrap();
    assert_eq!(arena.get_slice(slice_id).unwrap(), &[10, 99, 30]);

    // Test slice from function
    let func_slice_id = arena.alloc_slice_from_fn(3, |i| (i * 10) as i32).unwrap();
    assert_eq!(arena.get_slice(func_slice_id).unwrap(), &[0, 10, 20]);

    // Modify function-created slice
    arena.set_slice_item(func_slice_id, 2, 999).unwrap();
    assert_eq!(arena.get_slice(func_slice_id).unwrap(), &[0, 10, 999]);
}

#[test]
fn test_clean_public_api_demo() {
    let mut arena: TempArena<1024, u32> = TempArena::new();

    // Single value allocation
    let number_id = arena.alloc_value(42i32).unwrap();
    assert_eq!(arena.get(number_id).unwrap(), 42);
    arena.set(number_id, 100).unwrap();
    assert_eq!(arena.get(number_id).unwrap(), 100);

    // Slice from data
    let data_slice_id = arena.alloc_slice_from_iter(&[1, 2, 3, 4]).unwrap();
    assert_eq!(arena.get_slice(data_slice_id).unwrap(), &[1, 2, 3, 4]);

    // Modify slice
    arena.set_slice_item(data_slice_id, 1, 99).unwrap();
    assert_eq!(arena.get_slice(data_slice_id).unwrap(), &[1, 99, 3, 4]);

    // Slice from function
    let func_slice_id = arena.alloc_slice_from_fn(3, |i| (i * 10) as u64).unwrap();
    let numbers = arena.get_slice(func_slice_id).unwrap();
    assert_eq!(numbers[0], 0);
    assert_eq!(numbers[1], 10);
    assert_eq!(numbers[2], 20);
}

#[test]
fn set_slice_item_writes_one_value() {
    let mut arena: TempArena<16, u32> = TempArena::new();
    let id = arena.alloc_slice_from_iter(&[1u32, 2]).unwrap();
    assert_eq!(arena.set_slice_item(id, 0, 7), Some(()));
    assert_eq!(arena.get_slice(id).unwrap(), vec![7, 2]);
}
