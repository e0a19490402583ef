use gaut::arena::{Arena, ArenaError};

#[test]
fn alloc_and_reset() {
    let mut arena = Arena::with_capacity(16);
    let slice = arena.allocate(8).expect("alloc 8");
    slice.copy_from_slice(&[1u8; 8]);
    assert_eq!(arena.remaining(), 8);

    arena.reset();
    assert_eq!(arena.remaining(), 16);

    let slice2 = arena.allocate(16).expect("alloc after reset");
    assert_eq!(slice2.len(), 16);
}

#[test]
fn overflow_errors() {
    let mut arena = Arena::with_capacity(4);
    let err = arena.allocate(8).expect_err("should overflow");
    assert_eq!(
        err,
        ArenaError::OutOfCapacity {
            requested: 8,
            remaining: 4
        }
    );
}

#[test]
fn capacity_is_fixed() {
    let mut arena = Arena::with_capacity(10);
    assert_eq!(arena.capacity(), 10);
    assert_eq!(arena.remaining(), 10);
    arena.allocate(3).expect("alloc 3");
    assert_eq!(arena.capacity(), 10);
    assert_eq!(arena.remaining(), 7);
    arena.allocate(7).expect("alloc 7");
    assert_eq!(arena.remaining(), 0);
    let err = arena.allocate(1).expect_err("full");
    assert_eq!(
        err,
        ArenaError::OutOfCapacity {
            requested: 1,
            remaining: 0
        }
    );
    arena.allocate(0).expect("alloc 0");
}

#[test]
fn writes_land_in_the_arena() {
    let mut arena = Arena::with_capacity(4);
    {
        let a = arena.allocate(2).expect("first");
        assert_eq!(a, &[0u8, 0u8]);
        a[0] = 7;
        a[1] = 9;
    }
    {
        let b = arena.allocate(2).expect("second");
        assert_eq!(b, &[0u8, 0u8]);
    }
    arena.reset();
    let c = arena.allocate(4).expect("all");
    assert_eq!(c, &[7u8, 9u8, 0u8, 0u8]);
}
