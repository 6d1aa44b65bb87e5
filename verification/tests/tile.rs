use ms_roj::tile::{Tile, BLOCK_PADDING};

#[test]
fn it_works() {
    let (first, second, third) = (Tile::new(&0, &0), Tile::new(&1, &0), Tile::new(&2, &0));

    assert_eq!(first.top_left, (0, 0));
    assert_eq!(first.bottom_right, (2, 2));

    assert_eq!(second.top_left, (3 + BLOCK_PADDING, 0));
    assert_eq!(second.bottom_right, (5 + BLOCK_PADDING, 2));

    assert_eq!(third.top_left, (6 + (BLOCK_PADDING * 2), 0));
    assert_eq!(third.bottom_right, (8 + (BLOCK_PADDING * 2), 2));
}
