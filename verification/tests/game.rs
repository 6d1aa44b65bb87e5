use ms_roj::field::{CellDisplay, EndMark};
use ms_roj::game::{FlagOutcome, Game, RevealOutcome, Status};
use ms_roj::mines::GenError;
use ms_roj::position::Position;

fn diagonal_mines() -> Vec<Position> {
    let mut mines: Vec<Position> = (0..9).map(|i| Position(i, i)).collect();
    mines.push(Position(8, 0));
    mines
}

fn diagonal_game() -> Game {
    Game::from_mines(9, diagonal_mines()).unwrap()
}

fn corner_game() -> Game {
    Game::from_mines(3, vec![Position(0, 0)]).unwrap()
}

fn sorted(mut cells: Vec<Position>) -> Vec<(u16, u16)> {
    cells.sort_by_key(|p| (p.0, p.1));
    cells.into_iter().map(|p| (p.0, p.1)).collect()
}

#[test]
fn new_game_is_fresh() {
    let game = Game::new();
    assert_eq!(game.size, 9);
    assert_eq!(game.mines.len(), 10);
    assert_eq!(game.remaining_mines(), 10);
    assert!(!game.active);
    assert!(!game.ended);
    assert_eq!(game.status(), Status::Fresh);
    assert_eq!(game.field.len(), 9);
    for row in &game.field {
        assert_eq!(row.len(), 9);
        for cell in row {
            assert!(!cell.is_clicked);
            assert!(!cell.is_flagged);
        }
    }
}

#[test]
fn generated_counts_match_the_mines() {
    let game = Game::with_size(12).unwrap();
    assert_eq!(game.mines.len(), 19);
    for r in 0..12u16 {
        for c in 0..12u16 {
            let cell = &game.field[r as usize][c as usize];
            let mut expected = 0;
            for dr in -1i32..=1 {
                for dc in -1i32..=1 {
                    if dr == 0 && dc == 0 {
                        continue;
                    }
                    let (nr, nc) = (r as i32 + dr, c as i32 + dc);
                    if nr < 0 || nc < 0 || nr >= 12 || nc >= 12 {
                        continue;
                    }
                    if game.mines.contains(&Position(nr as u16, nc as u16)) {
                        expected += 1;
                    }
                }
            }
            assert_eq!(cell.mines_around, expected);
            assert_eq!(cell.is_mine, game.mines.contains(&Position(r, c)));
            assert_eq!(cell.adjecent_empty.len() + expected as usize, neighbours(r, c, 12));
        }
    }
}

fn neighbours(r: u16, c: u16, size: u16) -> usize {
    let rows = 1 + (r > 0) as usize + (r + 1 < size) as usize;
    let cols = 1 + (c > 0) as usize + (c + 1 < size) as usize;
    rows * cols - 1
}

#[test]
fn sizes_without_a_free_cell_are_refused() {
    assert_eq!(Game::with_size(0).err(), Some(GenError::TooManyMines));
    assert_eq!(Game::with_size(1).err(), Some(GenError::TooManyMines));
    assert!(Game::with_size(2).is_ok());
    assert_eq!(Game::with_size(2).unwrap().mines.len(), 3);
}

#[test]
fn fixed_mines_are_checked() {
    assert_eq!(Game::from_mines(1, vec![]).err(), Some(GenError::TooManyMines));
    let all: Vec<Position> = (0..2).flat_map(|r| (0..2).map(move |c| Position(r, c))).collect();
    assert_eq!(Game::from_mines(2, all).err(), Some(GenError::TooManyMines));
    assert_eq!(Game::from_mines(3, vec![Position(3, 0)]).err(), Some(GenError::OutOfBounds));
    assert_eq!(
        Game::from_mines(3, vec![Position(1, 1), Position(1, 1)]).err(),
        Some(GenError::Duplicate)
    );
    assert_eq!(
        Game::from_mines(3, vec![Position(1, 1), Position(1, 1), Position(0, 9)]).err(),
        Some(GenError::OutOfBounds)
    );
    assert!(Game::from_mines(3, vec![]).is_ok());
}

#[test]
fn error_messages_differ() {
    let texts = [
        GenError::TooManyMines.message(),
        GenError::OutOfBounds.message(),
        GenError::Duplicate.message(),
    ];
    assert_eq!(texts[0], "the board must keep at least one cell without a mine");
    assert_eq!(texts[1], "a mine lies outside the board");
    assert_eq!(texts[2], "two mines share one cell");
}

#[test]
fn fixed_board_counts() {
    let game = diagonal_game();
    let expected: [[u16; 9]; 9] = [
        [0, 2, 1, 0, 0, 0, 0, 0, 0],
        [2, 0, 2, 1, 0, 0, 0, 0, 0],
        [1, 2, 0, 2, 1, 0, 0, 0, 0],
        [0, 1, 2, 0, 2, 1, 0, 0, 0],
        [0, 0, 1, 2, 0, 2, 1, 0, 0],
        [0, 0, 0, 1, 2, 0, 2, 1, 0],
        [0, 0, 0, 0, 1, 2, 0, 2, 1],
        [1, 1, 0, 0, 0, 1, 2, 0, 2],
        [0, 1, 0, 0, 0, 0, 1, 2, 0],
    ];
    for r in 0..9usize {
        for c in 0..9usize {
            let cell = &game.field[r][c];
            let is_mine = r == c || (r, c) == (8, 0);
            assert_eq!(cell.is_mine, is_mine, "mine at {r},{c}");
            if !is_mine {
                assert_eq!(cell.mines_around, expected[r][c], "count at {r},{c}");
            }
        }
    }
    assert_eq!(game.field[1][1].mines_around, 2);
    assert_eq!(game.field[8][0].mines_around, 0);
}

#[test]
fn flood_then_loss_on_fixed_board() {
    let mut game = diagonal_game();
    let outcome = game.reveal_cell(Position(0, 4), false);
    let expected: Vec<(u16, u16)> = vec![
        (0, 2), (0, 3), (0, 5), (0, 6), (0, 7), (0, 8),
        (1, 2), (1, 3), (1, 4), (1, 5), (1, 6), (1, 7), (1, 8),
        (2, 3), (2, 4), (2, 5), (2, 6), (2, 7), (2, 8),
        (3, 4), (3, 5), (3, 6), (3, 7), (3, 8),
        (4, 5), (4, 6), (4, 7), (4, 8),
        (5, 6), (5, 7), (5, 8),
        (6, 7), (6, 8),
    ];
    match outcome {
        RevealOutcome::Flooded(list) => {
            for (p, shown) in &list {
                let cell = &game.field[p.0 as usize][p.1 as usize];
                assert_eq!(
                    *shown,
                    CellDisplay {
                        revealed: true,
                        is_mine: false,
                        number: cell.mines_around,
                        is_flagged: false
                    }
                );
            }
            assert_eq!(sorted(list.into_iter().map(|e| e.0).collect()), expected);
        }
        other => panic!("expected a flood, got {other:?}"),
    }
    for r in 0..9u16 {
        for c in 0..9u16 {
            let shown = (r, c) == (0, 4) || expected.contains(&(r, c));
            assert_eq!(game.field[r as usize][c as usize].is_clicked, shown, "cell {r},{c}");
        }
    }
    assert!(game.active);
    assert!(!game.ended);
    assert_eq!(game.status(), Status::Active);

    let outcome = game.reveal_cell(Position(3, 3), false);
    assert_eq!(outcome, RevealOutcome::Lost);
    assert!(game.ended);
    assert!(!game.active);
    assert_eq!(game.status(), Status::Lost);
    assert!(game.field[3][3].is_clicked);

    let frozen = game.field.clone();
    assert_eq!(game.reveal_cell(Position(8, 8), false), RevealOutcome::NoOp);
    assert_eq!(game.reveal_cell(Position(7, 3), true), RevealOutcome::NoOp);
    assert_eq!(game.toggle_flag(Position(7, 3)), FlagOutcome::NoOp);
    assert_eq!(game.field, frozen);
    assert!(game.ended);
}

#[test]
fn flood_stops_at_numbers() {
    let mut game = diagonal_game();
    let outcome = game.reveal_cell(Position(6, 1), false);
    let expected: Vec<(u16, u16)> = vec![
        (2, 0), (2, 1),
        (3, 0), (3, 1), (3, 2),
        (4, 0), (4, 1), (4, 2), (4, 3),
        (5, 0), (5, 1), (5, 2), (5, 3), (5, 4),
        (6, 0), (6, 2), (6, 3), (6, 4), (6, 5),
        (7, 0), (7, 1), (7, 2), (7, 3), (7, 4), (7, 5), (7, 6),
        (8, 1), (8, 2), (8, 3), (8, 4), (8, 5), (8, 6),
    ];
    match outcome {
        RevealOutcome::Flooded(list) => {
            assert_eq!(sorted(list.into_iter().map(|e| e.0).collect()), expected);
        }
        other => panic!("expected a flood, got {other:?}"),
    }
    assert!(!game.field[0][4].is_clicked);
    assert!(!game.field[8][0].is_clicked);
    assert!(!game.field[1][0].is_clicked);
}

#[test]
fn numbered_cell_is_cleared_alone() {
    let mut game = diagonal_game();
    let outcome = game.reveal_cell(Position(0, 1), false);
    assert_eq!(
        outcome,
        RevealOutcome::Cleared(CellDisplay {
            revealed: true,
            is_mine: false,
            number: 2,
            is_flagged: false
        })
    );
    let shown: usize = game.field.iter().flatten().filter(|c| c.is_clicked).count();
    assert_eq!(shown, 1);
}

#[test]
fn reveal_twice_is_reveal_once() {
    let mut game = diagonal_game();
    game.reveal_cell(Position(0, 1), false);
    let field = game.field.clone();
    let (left, active, ended, time) = (game.mines_left, game.active, game.ended, game.time);
    assert_eq!(game.reveal_cell(Position(0, 1), false), RevealOutcome::NoOp);
    assert_eq!(game.field, field);
    assert_eq!((game.mines_left, game.active, game.ended, game.time), (left, active, ended, time));

    game.reveal_cell(Position(0, 4), false);
    let field = game.field.clone();
    assert_eq!(game.reveal_cell(Position(0, 4), false), RevealOutcome::NoOp);
    assert_eq!(game.reveal_cell(Position(2, 6), false), RevealOutcome::NoOp);
    assert_eq!(game.field, field);
}

#[test]
fn reveal_off_the_board_changes_no_cell() {
    let mut game = diagonal_game();
    let field = game.field.clone();
    assert_eq!(game.reveal_cell(Position(9, 0), false), RevealOutcome::NoOp);
    assert_eq!(game.reveal_cell(Position(0, 9), true), RevealOutcome::NoOp);
    assert_eq!(game.reveal_cell(Position(65535, 65535), false), RevealOutcome::NoOp);
    assert_eq!(game.field, field);
    assert_eq!(game.remaining_mines(), 10);
    assert!(game.active);
    assert!(!game.ended);
}

#[test]
fn win_after_last_free_cell() {
    let mut game = corner_game();
    assert_eq!(game.remaining_mines(), 1);
    let order = [(0, 1), (1, 0), (1, 1), (0, 2), (1, 2), (2, 0), (2, 1), (2, 2)];
    for (i, (r, c)) in order.iter().enumerate() {
        assert!(!game.ended);
        let outcome = game.reveal_cell(Position(*r, *c), false);
        if game.field.iter().flatten().all(|f| f.is_clicked != f.is_mine) {
            assert_eq!(outcome, RevealOutcome::Won, "after move {i}");
            break;
        }
        assert!(matches!(
            outcome,
            RevealOutcome::Cleared(_) | RevealOutcome::Flooded(_) | RevealOutcome::NoOp
        ));
    }
    assert!(game.ended);
    assert!(!game.active);
    assert_eq!(game.status(), Status::Won);
    assert!(game.is_complete());
    assert!(!game.field[0][0].is_clicked);
}

#[test]
fn one_by_one_win_on_numbered_board() {
    let mines = vec![Position(1, 1)];
    let mut game = Game::from_mines(3, mines).unwrap();
    let order = [(0, 0), (0, 1), (0, 2), (1, 0), (1, 2), (2, 0), (2, 1)];
    for (r, c) in order {
        let outcome = game.reveal_cell(Position(r, c), false);
        assert_eq!(
            outcome,
            RevealOutcome::Cleared(CellDisplay {
                revealed: true,
                is_mine: false,
                number: 1,
                is_flagged: false
            })
        );
        assert!(!game.ended);
        assert!(!game.is_complete());
    }
    assert_eq!(game.reveal_cell(Position(2, 2), false), RevealOutcome::Won);
    assert!(game.ended);
    assert_eq!(game.status(), Status::Won);
}

#[test]
fn reset_after_win() {
    let mut game = corner_game();
    assert_eq!(game.reveal_cell(Position(2, 2), false), RevealOutcome::Won);
    assert!(game.ended);
    game.new_mines();
    assert!(!game.ended);
    assert!(!game.active);
    assert_eq!(game.size, 3);
    assert_eq!(game.mines.len(), 4);
    assert_eq!(game.remaining_mines(), 4);
    assert_eq!(game.status(), Status::Fresh);
    for cell in game.field.iter().flatten() {
        assert!(!cell.is_clicked);
        assert!(!cell.is_flagged);
    }
    let mines: usize = game.field.iter().flatten().filter(|c| c.is_mine).count();
    assert_eq!(mines, 4);
}

#[test]
fn flag_counter() {
    let mut game = diagonal_game();
    assert_eq!(game.remaining_mines(), 10);
    assert_eq!(game.toggle_flag(Position(0, 0)), FlagOutcome::Flagged(9));
    assert!(game.field[0][0].is_flagged);
    assert!(game.active);
    assert_eq!(game.remaining_mines(), 9);
    assert_eq!(game.toggle_flag(Position(0, 0)), FlagOutcome::Unflagged(10));
    assert!(!game.field[0][0].is_flagged);
    assert_eq!(game.remaining_mines(), 10);
    assert_eq!(game.reveal_cell(Position(5, 5), true), RevealOutcome::Flagged(9));
    assert_eq!(game.reveal_cell(Position(5, 5), true), RevealOutcome::Flagged(10));

    game.reveal_cell(Position(0, 1), false);
    assert_eq!(game.toggle_flag(Position(0, 1)), FlagOutcome::NoOp);
    assert_eq!(game.reveal_cell(Position(0, 1), true), RevealOutcome::NoOp);
    assert!(!game.field[0][1].is_flagged);
    assert_eq!(game.remaining_mines(), 10);
}

#[test]
fn no_more_flags_than_mines() {
    let mut game = corner_game();
    assert_eq!(game.toggle_flag(Position(1, 1)), FlagOutcome::Flagged(0));
    assert_eq!(game.toggle_flag(Position(0, 0)), FlagOutcome::NoOp);
    assert!(!game.field[0][0].is_flagged);
    assert_eq!(game.remaining_mines(), 0);
    assert_eq!(game.toggle_flag(Position(1, 1)), FlagOutcome::Unflagged(1));
    assert_eq!(game.toggle_flag(Position(0, 0)), FlagOutcome::Flagged(0));
}

#[test]
fn flood_takes_flags_away() {
    let mut game = diagonal_game();
    assert_eq!(game.toggle_flag(Position(2, 6)), FlagOutcome::Flagged(9));
    assert_eq!(game.toggle_flag(Position(1, 3)), FlagOutcome::Flagged(8));
    assert_eq!(game.toggle_flag(Position(7, 2)), FlagOutcome::Flagged(7));
    let outcome = game.reveal_cell(Position(0, 4), false);
    assert!(matches!(outcome, RevealOutcome::Flooded(_)));
    assert!(game.field[2][6].is_clicked && !game.field[2][6].is_flagged);
    assert!(game.field[1][3].is_clicked && !game.field[1][3].is_flagged);
    assert!(game.field[7][2].is_flagged && !game.field[7][2].is_clicked);
    assert_eq!(game.remaining_mines(), 9);
}

#[test]
fn reveal_of_flagged_cell_takes_the_flag() {
    let mut game = diagonal_game();
    assert_eq!(game.toggle_flag(Position(0, 1)), FlagOutcome::Flagged(9));
    let outcome = game.reveal_cell(Position(0, 1), false);
    assert!(matches!(outcome, RevealOutcome::Cleared(_)));
    assert!(!game.field[0][1].is_flagged);
    assert_eq!(game.remaining_mines(), 10);
}

#[test]
fn resize_keeps_or_replaces_the_board() {
    let mut game = diagonal_game();
    game.reveal_cell(Position(0, 1), false);
    assert_eq!(game.resize(9), Ok(()));
    assert!(game.field[0][1].is_clicked);
    assert_eq!(game.mines, diagonal_mines());

    assert_eq!(game.resize(1), Err(GenError::TooManyMines));
    assert_eq!(game.size, 9);
    assert!(game.field[0][1].is_clicked);

    assert_eq!(game.resize(16), Ok(()));
    assert_eq!(game.size, 16);
    assert_eq!(game.mines.len(), 31);
    assert_eq!(game.remaining_mines(), 31);
    assert_eq!(game.field.len(), 16);
    assert!(!game.active && !game.ended);
}

#[test]
fn clock_stands_until_the_first_move() {
    let mut game = diagonal_game();
    assert_eq!(game.elapsed_seconds(), 0);
    game.start_timer();
    assert!(game.active);
    assert!(game.elapsed_seconds() < 5);
    let mut other = diagonal_game();
    other.reveal_cell(Position(3, 3), false);
    assert_eq!(other.elapsed_seconds(), 0);
}

#[test]
fn cell_display_reads_the_cell() {
    let mut game = diagonal_game();
    assert_eq!(game.cell_display(Position(9, 9)), None);
    assert_eq!(
        game.cell_display(Position(0, 0)),
        Some(CellDisplay { revealed: false, is_mine: true, number: 1, is_flagged: false })
    );
    game.toggle_flag(Position(0, 1));
    assert_eq!(
        game.cell_display(Position(0, 1)),
        Some(CellDisplay { revealed: false, is_mine: false, number: 2, is_flagged: true })
    );
}

#[test]
fn clock_shows_only_while_it_runs() {
    let mut game = diagonal_game();
    assert_eq!(game.clock(), None);
    game.reveal_cell(Position(0, 1), false);
    assert_eq!(game.clock(), Some("0:00".to_string()));
    game.reveal_cell(Position(0, 0), false);
    assert!(game.ended);
    assert_eq!(game.clock(), None);
}

#[test]
fn end_marks() {
    let mut game = diagonal_game();
    game.toggle_flag(Position(1, 1));
    game.toggle_flag(Position(0, 1));
    assert_eq!(game.reveal_cell(Position(2, 2), false), RevealOutcome::Lost);
    assert_eq!(game.field[2][2].end_mark(), EndMark::ClickedMine);
    assert_eq!(game.field[3][3].end_mark(), EndMark::Mine);
    assert_eq!(game.field[1][1].end_mark(), EndMark::Unmarked);
    assert_eq!(game.field[0][1].end_mark(), EndMark::WrongFlag);
    assert_eq!(game.field[0][2].end_mark(), EndMark::Unmarked);
}

#[test]
fn start_timer_only_starts_the_clock() {
    let mut game = diagonal_game();
    let field = game.field.clone();
    game.start_timer();
    assert!(game.active);
    assert!(!game.ended);
    assert_eq!(game.field, field);
    assert_eq!(game.mines, diagonal_mines());
    assert_eq!(game.remaining_mines(), 10);
    assert_eq!(game.status(), Status::Active);
}
