use ms_roj::board::{adjecent_empty, around, holds, lay_out};
use ms_roj::field::{CellDisplay, Field};
use ms_roj::flood::get_tiles_around;
use ms_roj::game::gen;
use ms_roj::grid::p_around;
use ms_roj::mines::{cell_count, gen_mines, mine_count, place_mine, GenError};
use ms_roj::position::Position;
use std::cmp::Ordering;

fn pairs(cells: &[Position]) -> Vec<(u16, u16)> {
    cells.iter().map(|p| (p.0, p.1)).collect()
}

#[test]
fn mine_count_formula() {
    assert_eq!(mine_count(0), 1);
    assert_eq!(mine_count(1), 2);
    assert_eq!(mine_count(2), 3);
    assert_eq!(mine_count(9), 10);
    assert_eq!(mine_count(10), 13);
    assert_eq!(mine_count(16), 31);
    assert_eq!(mine_count(65535), 196588);
    assert_eq!(cell_count(9), 81);
    assert_eq!(cell_count(65535), 4294836225);
}

#[test]
fn generated_mines_are_distinct_cells() {
    for size in [2u16, 3, 9, 10, 20] {
        let mines = gen_mines(size).unwrap();
        assert_eq!(mines.len(), mine_count(size) as usize);
        for (i, p) in mines.iter().enumerate() {
            assert!(p.0 < size && p.1 < size, "mine {p:?} on a board of {size}");
            assert!(!mines[..i].contains(p));
        }
    }
    assert_eq!(gen_mines(1), Err(GenError::TooManyMines));
    assert_eq!(gen_mines(0), Err(GenError::TooManyMines));
}

#[test]
fn generated_boards_differ() {
    let first = gen_mines(30).unwrap();
    let differs = (0..20).any(|_| gen_mines(30).unwrap() != first);
    assert!(differs);
}

#[test]
fn gen_lays_out_what_it_placed() {
    let (mines, field) = gen(9).unwrap();
    assert_eq!(mines.len(), 10);
    assert_eq!(field.len(), 9);
    let marked: usize = field.iter().flatten().filter(|c| c.is_mine).count();
    assert_eq!(marked, 10);
    for p in &mines {
        assert!(field[p.0 as usize][p.1 as usize].is_mine);
    }
    assert!(gen(1).is_err());
}

#[test]
fn place_mine_skips_what_is_there() {
    let mut mines = vec![Position(1, 2)];
    assert!(!place_mine(&mut mines, Position(1, 2)));
    assert_eq!(mines, vec![Position(1, 2)]);
    assert!(place_mine(&mut mines, Position(2, 1)));
    assert_eq!(mines, vec![Position(1, 2), Position(2, 1)]);
    assert!(holds(&mines, &Position(2, 1)));
    assert!(!holds(&mines, &Position(2, 2)));
}

#[test]
fn neighbours_are_clipped_at_the_edges() {
    assert_eq!(pairs(&p_around(&Position(0, 0), 9)), vec![(0, 1), (1, 0), (1, 1)]);
    assert_eq!(pairs(&p_around(&Position(8, 8), 9)), vec![(7, 7), (7, 8), (8, 7)]);
    assert_eq!(
        pairs(&p_around(&Position(0, 4), 9)),
        vec![(0, 3), (0, 5), (1, 3), (1, 4), (1, 5)]
    );
    assert_eq!(
        pairs(&p_around(&Position(4, 4), 9)),
        vec![(3, 3), (3, 4), (3, 5), (4, 3), (4, 5), (5, 3), (5, 4), (5, 5)]
    );
    assert_eq!(pairs(&p_around(&Position(0, 0), 1)), vec![]);
    assert_eq!(pairs(&p_around(&Position(0, 0), 0)), vec![]);
    assert_eq!(pairs(&p_around(&Position(9, 0), 9)), vec![(8, 0), (8, 1)]);
    assert_eq!(pairs(&p_around(&Position(20, 20), 9)), vec![]);
    assert_eq!(pairs(&p_around(&Position(65535, 65535), 65535)), vec![(65534, 65534)]);
}

#[test]
fn around_counts_the_mines_next_to_a_cell() {
    let mines = vec![Position(0, 0), Position(1, 1), Position(2, 2), Position(0, 2)];
    assert_eq!(around(&Position(0, 1), &mines, 3), 3);
    assert_eq!(around(&Position(1, 1), &mines, 3), 3);
    assert_eq!(around(&Position(2, 0), &mines, 3), 1);
    assert_eq!(around(&Position(0, 0), &mines, 3), 1);
    let ring: Vec<Position> = p_around(&Position(1, 1), 3);
    assert_eq!(around(&Position(1, 1), &ring, 3), 8);
    assert_eq!(around(&Position(1, 1), &vec![], 3), 0);
}

#[test]
fn adjecent_empty_lists_the_free_neighbours() {
    let mines = vec![Position(0, 0), Position(1, 1), Position(2, 2), Position(0, 2)];
    assert_eq!(pairs(&adjecent_empty(&Position(0, 1), &mines, 3)), vec![(1, 0), (1, 2)]);
    assert_eq!(
        pairs(&adjecent_empty(&Position(1, 1), &mines, 3)),
        vec![(0, 1), (1, 0), (1, 2), (2, 0), (2, 1)]
    );
}

#[test]
fn lay_out_fills_every_cell() {
    let mines = vec![Position(0, 0)];
    let field = lay_out(2, &mines);
    assert_eq!(
        field[0][0],
        Field {
            is_mine: true,
            is_clicked: false,
            is_flagged: false,
            mines_around: 0,
            adjecent_empty: vec![Position(0, 1), Position(1, 0), Position(1, 1)],
        }
    );
    assert_eq!(
        field[1][1],
        Field {
            is_mine: false,
            is_clicked: false,
            is_flagged: false,
            mines_around: 1,
            adjecent_empty: vec![Position(0, 1), Position(1, 0)],
        }
    );
    assert_eq!(lay_out(0, &mines).len(), 0);
}

#[test]
fn flood_region_of_a_corner() {
    let mines = vec![Position(0, 0)];
    let field = lay_out(4, &mines);
    let mut region = pairs(&get_tiles_around(&Position(3, 3), &field, 4));
    region.sort();
    assert_eq!(
        region,
        vec![
            (0, 1), (0, 2), (0, 3),
            (1, 0), (1, 1), (1, 2), (1, 3),
            (2, 0), (2, 1), (2, 2), (2, 3),
            (3, 0), (3, 1), (3, 2),
        ]
    );
    assert!(get_tiles_around(&Position(1, 1), &field, 4).is_empty());
    assert!(get_tiles_around(&Position(0, 0), &field, 4).is_empty());
    assert!(get_tiles_around(&Position(4, 4), &field, 4).is_empty());
}

#[test]
fn flood_does_not_cross_a_wall_of_numbers() {
    // A column of mines splits the board: the blank cells on the far side
    // stay hidden.
    let mines: Vec<Position> = (0..5).map(|r| Position(r, 2)).collect();
    let field = lay_out(5, &mines);
    let mut region = pairs(&get_tiles_around(&Position(0, 0), &field, 5));
    region.sort();
    let mut expected = vec![];
    for r in 0..5 {
        for c in 0..2 {
            if (r, c) != (0, 0) {
                expected.push((r, c));
            }
        }
    }
    assert_eq!(region, expected);
}

#[test]
fn positions_order_by_column_then_row() {
    assert_eq!(Position(0, 0).cmp(&Position(0, 0)), Ordering::Equal);
    assert_eq!(Position(5, 0).cmp(&Position(0, 1)), Ordering::Less);
    assert_eq!(Position(0, 1).cmp(&Position(5, 0)), Ordering::Greater);
    assert_eq!(Position(1, 3).cmp(&Position(2, 3)), Ordering::Less);
    assert_eq!(Position(2, 3).cmp(&Position(1, 3)), Ordering::Greater);
    assert_eq!(Position(2, 3).partial_cmp(&Position(1, 3)), Some(Ordering::Greater));
    assert!(Position(5, 0) < Position(0, 1));
    assert!(Position(1, 1) == Position(1, 1));
    assert!(Position(1, 1) != Position(1, 2));
    assert!(Position(3, 8).is_within(9));
    assert!(!Position(9, 8).is_within(9));
}

#[test]
fn class_names() {
    let mut field = Field {
        is_mine: false,
        is_clicked: true,
        is_flagged: false,
        mines_around: 1,
        adjecent_empty: vec![],
    };
    assert_eq!(field.mines_around_class_name(), "btn_nearby_one");
    field.mines_around = 2;
    assert_eq!(field.mines_around_class_name(), "btn_nearby_two");
    field.mines_around = 3;
    assert_eq!(field.mines_around_class_name(), "btn_nearby_multiple");
    field.mines_around = 8;
    assert_eq!(field.mines_around_class_name(), "btn_nearby_multiple");
    field.mines_around = 0;
    assert_eq!(field.mines_around_class_name(), "btn_nearby_multiple");
    assert_eq!(
        field.display(),
        CellDisplay { revealed: true, is_mine: false, number: 0, is_flagged: false }
    );
}
