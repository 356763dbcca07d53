use invariant_clamm::consts::{
    get_chunk_size, get_global_max_sqrt_price, get_global_min_sqrt_price, get_max_chunk, get_tick_search_range,
    tick_to_chunk, tick_to_pos,
};

#[test]
fn global_limits() {
    assert_eq!(get_global_max_sqrt_price(), 65535383934512647000000000000);
    assert_eq!(get_global_min_sqrt_price(), 15258932000000000000);
    assert_eq!(get_tick_search_range(), 256);
    assert_eq!(get_chunk_size(), 64);
}

#[test]
fn chunk_and_position_of_a_tick() {
    assert_eq!(tick_to_chunk(0, 1), 3465);
    assert_eq!(tick_to_pos(0, 1), 58);
    assert_eq!(tick_to_chunk(0, 10), 346);
    assert_eq!(tick_to_pos(0, 10), 37);
    assert_eq!(tick_to_chunk(-221818, 1), 0);
    assert_eq!(tick_to_pos(-221818, 1), 0);
}

#[test]
fn below_the_range_the_arithmetic_truncates() {
    // the index is -100: truncated division gives chunk -1 (cut to 16 bits)
    // and remainder -36 (cut to 8 bits)
    assert_eq!(tick_to_chunk(-221918, 1), 65535);
    assert_eq!(tick_to_pos(-221918, 1), 220);
    // a negative spacing divides toward zero too
    assert_eq!(tick_to_chunk(0, -1), 65535 - 3465 + 1);
}

#[test]
fn max_chunk_for_a_spacing() {
    assert_eq!(get_max_chunk(1), 6931);
    assert_eq!(get_max_chunk(10), 693);
    assert_eq!(get_max_chunk(100), 69);
}
