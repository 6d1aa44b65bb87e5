use ms_roj::clock::{clock_text, decimal_text};
use ms_roj::field::Field;
use ms_roj::icons::{k_v, Icon};
use ms_roj::tile::{Tile, BLOCK_HEIGHT, BLOCK_PADDING, BLOCK_WIDTH};
use std::cmp::Ordering;

fn cell(is_mine: bool, is_clicked: bool, is_flagged: bool, mines_around: u16) -> Field {
    Field { is_mine, is_clicked, is_flagged, mines_around, adjecent_empty: vec![] }
}

#[test]
fn clock_faces() {
    assert_eq!(clock_text(0), "0:00");
    assert_eq!(clock_text(7), "0:07");
    assert_eq!(clock_text(59), "0:59");
    assert_eq!(clock_text(60), "1:00");
    assert_eq!(clock_text(754), "12:34");
    assert_eq!(clock_text(3599), "59:59");
    assert_eq!(clock_text(3600), "0:00");
    assert_eq!(clock_text(3661), "1:01");
    assert_eq!(clock_text(u64::MAX), "0:15");
}

#[test]
fn decimal_digits() {
    assert_eq!(decimal_text(0), "0");
    assert_eq!(decimal_text(9), "9");
    assert_eq!(decimal_text(10), "10");
    assert_eq!(decimal_text(65535), "65535");
    assert_eq!(decimal_text(u64::MAX), "18446744073709551615");
}

#[test]
fn tile_corners() {
    let tile = Tile::new(&2, &3);
    let step_x = BLOCK_WIDTH + BLOCK_PADDING;
    let step_y = BLOCK_HEIGHT + BLOCK_PADDING;
    assert_eq!((tile.x, tile.y), (2 * step_x, 3 * step_y));
    assert_eq!(tile.top_left, (2 * step_x, 3 * step_y));
    assert_eq!(tile.top_right, (2 * step_x + 2, 3 * step_y));
    assert_eq!(tile.bottom_left, (2 * step_x, 3 * step_y + 2));
    assert_eq!(tile.bottom_right, (2 * step_x + 2, 3 * step_y + 2));
    let far = Tile::new(&16383, &16383);
    assert_eq!(far.bottom_right, (65534, 65534));
}

#[test]
fn tiles_order_by_row_then_column() {
    let (a, b, c) = (Tile::new(&0, &0), Tile::new(&1, &0), Tile::new(&0, &1));
    assert_eq!(a.cmp(&a), Ordering::Equal);
    assert_eq!(a.cmp(&b), Ordering::Less);
    assert_eq!(b.cmp(&c), Ordering::Less);
    assert_eq!(c.cmp(&b), Ordering::Greater);
    assert_eq!(c.partial_cmp(&a), Some(Ordering::Greater));
    assert!(a < b && b < c);
    assert!(a == Tile::new(&0, &0));
    assert!(a != b);
}

#[test]
fn hidden_tile_is_drawn_as_a_wall() {
    let tile = Tile::new(&0, &0);
    let text = tile.render(&cell(false, false, false, 3), &1, &1, false);
    let expected = "\x1b[1;1H▒\x1b[1;2H▒\x1b[1;3H▒\x1b[2;1H▒\x1b[2;3H▒\x1b[3;1H▒\x1b[3;2H▒\x1b[3;3H▒\x1b[2;2H▓";
    assert_eq!(text, expected);
}

#[test]
fn revealed_tile_shows_its_number() {
    let tile = Tile::new(&1, &2);
    let text = tile.render(&cell(false, true, false, 3), &10, &5, false);
    let expected = "\x1b[13;14H \x1b[13;15H \x1b[13;16H \x1b[14;14H \x1b[14;16H \x1b[15;14H \x1b[15;15H \x1b[15;16H \x1b[14;15H3";
    assert_eq!(text, expected);
}

#[test]
fn tile_faces() {
    let tile = Tile::new(&0, &0);
    let face = |block: &Field, ended: bool| -> String {
        let text = tile.render(block, &1, &1, ended);
        text.rsplit('H').next().unwrap().to_string()
    };
    assert_eq!(face(&cell(false, true, false, 0), false), " ");
    assert_eq!(face(&cell(false, true, false, 12), false), "12");
    assert_eq!(face(&cell(true, true, false, 0), false), "🔥");
    assert_eq!(face(&cell(true, false, false, 0), true), "🔥");
    assert_eq!(face(&cell(true, false, true, 0), true), "▓");
    assert_eq!(face(&cell(true, false, true, 0), false), "▓");
    assert_eq!(face(&cell(false, false, true, 1), true), "1");
    assert_eq!(face(&cell(false, false, false, 1), false), "▓");
    let flagged = tile.render(&cell(true, false, true, 0), &1, &1, false);
    assert!(flagged.starts_with("\x1b[1;1H \x1b[1;2H "));
}

#[test]
fn far_tile_moves_the_cursor_far() {
    let tile = Tile::new(&16383, &0);
    let text = tile.render(&cell(false, false, false, 0), &1, &0, false);
    assert!(text.starts_with("\x1b[0;65533H▒\x1b[0;65534H▒\x1b[0;65535H▒"));
    assert!(text.ends_with("\x1b[1;65534H▓"));
}

#[test]
fn icons_and_their_files() {
    let pairs = k_v();
    assert_eq!(
        pairs,
        vec![
            (Icon::Bomb, "resources/icons/1F4A3_color.png"),
            (Icon::Dead, "resources/icons/1F635_color.png"),
            (Icon::Fire, "resources/icons/1F525_color.png"),
            (Icon::Flag, "resources/icons/E091_color.png"),
            (Icon::Happy, "resources/icons/1F600_color.png"),
            (Icon::Party, "resources/icons/1F973_color.png"),
        ]
    );
    assert_eq!(Icon::Flag.resource(), "resources/icons/E091_color.png");
}
