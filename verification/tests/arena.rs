use hsl::arena::{Arena, ARENA_REGION_DEFAULT_CAP};

#[test]
fn test_strdup() {
    let mut arena = Arena::new();
    let str_1 = arena.strdup(b"Hello World!");
    let str_2 = arena.strdup(b"Hello World!");

    assert_eq!(arena.get(str_1), b"Hello World!");
    assert_eq!(arena.get(str_2), b"Hello World!");
    assert_eq!(arena.count(), 1);
}

#[test]
fn a_string_that_does_not_fit_opens_a_region() {
    let mut arena = Arena::new();
    assert_eq!(arena.count(), 0);
    let small = arena.strdup(b"abc");
    assert_eq!((small.region, small.start, small.len), (0, 0, 3));
    assert_eq!(arena.regions[0].capacity, ARENA_REGION_DEFAULT_CAP);

    let next = arena.strdup(b"de");
    assert_eq!((next.region, next.start, next.len), (0, 3, 2));

    // more than the rest of the first region
    let large = vec![7u8; ARENA_REGION_DEFAULT_CAP];
    let big = arena.strdup(&large);
    assert_eq!((big.region, big.start), (1, 0));
    assert_eq!(arena.count(), 2);
    assert_eq!(arena.regions[1].capacity, ARENA_REGION_DEFAULT_CAP);

    // more than any region holds by default
    let huge = vec![9u8; ARENA_REGION_DEFAULT_CAP + 1];
    let h = arena.strdup(&huge);
    assert_eq!(h.region, 2);
    assert_eq!(arena.regions[2].capacity, ARENA_REGION_DEFAULT_CAP + 1);

    // what was stored before is still there
    assert_eq!(arena.get(small), b"abc");
    assert_eq!(arena.get(next), b"de");
    assert_eq!(arena.get(big), &large[..]);
    assert_eq!(arena.get(h), &huge[..]);

    let empty = arena.strdup(b"");
    assert_eq!(arena.get(empty), b"");
}
