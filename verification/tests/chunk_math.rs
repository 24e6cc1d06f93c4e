use life_core::chunks::chunk_key;

#[test]
fn origin_is_chunk_zero() {
    assert_eq!(chunk_key(0, 0), (0, 0));
}

#[test]
fn last_cell_of_first_chunk() {
    assert_eq!(chunk_key(63, 63), (0, 0));
}

#[test]
fn first_cell_of_next_chunk() {
    assert_eq!(chunk_key(64, 0), (1, 0));
}

#[test]
fn negative_one_maps_to_chunk_minus_one() {
    assert_eq!(chunk_key(-1, -1), (-1, -1));
}

#[test]
fn negative_sixty_four_still_chunk_minus_one() {
    assert_eq!(chunk_key(-64, -64), (-1, -1));
}

#[test]
fn negative_sixty_five_maps_to_chunk_minus_two() {
    assert_eq!(chunk_key(-65, -65), (-2, -2));
}

#[test]
fn extreme_coordinates_do_not_panic() {
    assert_eq!(chunk_key(i64::MIN, i64::MAX), (i64::MIN / 64, i64::MAX / 64));
}
