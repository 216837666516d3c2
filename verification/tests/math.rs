use hsl::math::align_bytes;

#[test]
fn test_align_bytes() {
    assert_eq!(align_bytes(8, 16), 16_usize);
    assert_eq!(align_bytes(8, 16), 16_i32);
}

#[test]
fn align_bytes_edges() {
    assert_eq!(align_bytes(0_usize, 16), 0);
    assert_eq!(align_bytes(16_usize, 16), 16);
    assert_eq!(align_bytes(17_usize, 16), 32);
    assert_eq!(align_bytes(24_u128, 16), 32);
    // a negative count has a remainder that is not positive: it stays
    assert_eq!(align_bytes(-8_i32, 16), -8);
    assert_eq!(align_bytes(5_i32, 4), 8);
}
