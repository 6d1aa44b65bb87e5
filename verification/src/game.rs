//! The game: a board, its flags and its clock, and the moves that change them.

use crate::board::{cell, is_square, laid_out, lay_out, untouched, FieldMap};
use crate::clock::{clock_face, clock_text};
use crate::field::{CellDisplay, Field};
use crate::flood::{flood_region, floods, get_tiles_around, laid_out_adjacency};
use crate::grid::{all_cells, lemma_cell_count, lemma_cells_covered};
use crate::mines::{cell_count, distinct_cells, expected_count, fits, fits_from_two, gen_mines, GenError};
use crate::position::Position;
use std::time::Instant;
use vstd::prelude::*;

verus! {

/// What a reveal request did.
#[derive(Debug, Clone, PartialEq, Eq)]
pub enum RevealOutcome {
    /// No cell changed.
    NoOp,
    /// A flag was set or taken away; the number of mines that are left to flag.
    Flagged(i64),
    /// One cell next to a mine was revealed.
    Cleared(CellDisplay),
    /// A blank cell was revealed, and with it the cells listed here.
    Flooded(Vec<(Position, CellDisplay)>),
    /// A mine was revealed: the game is lost.
    Lost,
    /// The last cell without a mine was revealed: the game is won.
    Won,
}

/// What a flag request did.
#[derive(Debug, Copy, Clone, PartialEq, Eq, Structural)]
pub enum FlagOutcome {
    /// No cell changed.
    NoOp,
    /// The cell was flagged; the number of mines that are left to flag.
    Flagged(i64),
    /// The flag was taken away; the number of mines that are left to flag.
    Unflagged(i64),
}

/// Where a game stands.
#[derive(Debug, Copy, Clone, PartialEq, Eq, Structural)]
pub enum Status {
    /// No move was made since the board was laid out.
    Fresh,
    /// The clock runs.
    Active,
    /// Every cell without a mine is revealed.
    Won,
    /// A mine was revealed.
    Lost,
}

/// A game of Minesweeper on a square board.
pub struct Game {
    /// The number of rows, and of columns.
    pub size: u16,
    pub mines: Vec<Position>,
    pub field: FieldMap,
    /// Whether the clock runs.
    pub active: bool,
    /// Whether the game is over, won or lost.
    pub ended: bool,
    /// When the clock was started.
    pub time: Instant,
    /// The number of mines less the number of flags.
    pub mines_left: i64,
}

/// The flagged cells of the board.
pub open spec fn flagged_cells(field: &FieldMap, size: u16) -> Set<Position> {
    Set::new(|p: Position| p.in_bounds(size) && cell(field, p).is_flagged)
}

/// Whether a mine of the board is revealed.
pub open spec fn detonated(field: &FieldMap, size: u16) -> bool {
    exists|p: Position|
        p.in_bounds(size) && (#[trigger] cell(field, p)).is_mine && cell(field, p).is_clicked
}

/// Whether the revealed cells of the board are exactly those without a mine.
pub open spec fn cleared(field: &FieldMap, size: u16) -> bool {
    forall|p: Position|
        p.in_bounds(size) ==> ((#[trigger] cell(field, p)).is_clicked <==> !cell(field, p).is_mine)
}

/// The cell `f` after a reveal: shown, and without a flag.
pub open spec fn opened(f: Field) -> Field {
    Field {
        is_mine: f.is_mine,
        is_clicked: true,
        is_flagged: false,
        mines_around: f.mines_around,
        adjecent_empty: f.adjecent_empty,
    }
}

/// The cell `f` with its flag set or taken away.
pub open spec fn toggled(f: Field) -> Field {
    Field {
        is_mine: f.is_mine,
        is_clicked: f.is_clicked,
        is_flagged: !f.is_flagged,
        mines_around: f.mines_around,
        adjecent_empty: f.adjecent_empty,
    }
}

/// Whether two cells agree in all that the mine positions decide.
pub open spec fn same_layout(a: Field, b: Field) -> bool {
    &&& a.is_mine == b.is_mine
    &&& a.mines_around == b.mines_around
    &&& a.adjecent_empty == b.adjecent_empty
}

/// Whether `report` lists each cell of `region` once, with what `field` shows of it.
pub open spec fn reports(
    report: Seq<(Position, CellDisplay)>,
    field: &FieldMap,
    region: Set<Position>,
) -> bool {
    &&& forall|i: int, j: int|
        0 <= i < report.len() && 0 <= j < report.len() && i != j ==> (#[trigger] report[i]).0 != (
        #[trigger] report[j]).0
    &&& forall|i: int|
        0 <= i < report.len() ==> region.contains((#[trigger] report[i]).0) && report[i].1 == cell(
            field,
            report[i].0,
        ).shown()
    &&& forall|p: Position|
        region.contains(p) ==> exists|i: int| 0 <= i < report.len() && (#[trigger] report[i]).0 == p
}

/// A board that is laid out stays so while its cells change only in what is
/// revealed and flagged.
pub proof fn layout_kept(before: &FieldMap, after: &FieldMap, size: u16, mines: Seq<Position>)
    requires
        laid_out(before, size, mines),
        is_square(after, size),
        forall|p: Position|
            p.in_bounds(size) ==> same_layout(cell(before, p), #[trigger] cell(after, p)),
    ensures
        laid_out(after, size, mines),
{
    assert forall|p: Position| p.in_bounds(size) implies crate::board::cell_matches(
        #[trigger] cell(after, p),
        p,
        size,
        mines,
    ) by {
        assert(crate::board::cell_matches(cell(before, p), p, size, mines));
        assert(same_layout(cell(before, p), cell(after, p)));
    }
}

/// The flagged cells of a board are finitely many.
pub proof fn flags_finite(field: &FieldMap, size: u16)
    ensures
        flagged_cells(field, size).finite(),
        flagged_cells(field, size).len() <= size * size,
{
    lemma_cell_count(size);
    vstd::set_lib::lemma_len_subset(flagged_cells(field, size), all_cells(size));
}

/// How the number of flagged cells moves when one cell changes.
pub proof fn flags_after_change(before: &FieldMap, after: &FieldMap, size: u16, at: Position)
    requires
        at.in_bounds(size),
        forall|p: Position|
            p.in_bounds(size) && p != at ==> cell(before, p).is_flagged == (#[trigger] cell(
                after,
                p,
            )).is_flagged,
    ensures
        flagged_cells(after, size).len() == flagged_cells(before, size).len() + (if cell(
            after,
            at,
        ).is_flagged { 1int } else { 0 }) - (if cell(before, at).is_flagged { 1int } else { 0 }),
{
    flags_finite(before, size);
    flags_finite(after, size);
    let b = flagged_cells(before, size);
    let a = flagged_cells(after, size);
    assert forall|p: Position| p != at implies (a.contains(p) <==> b.contains(p)) by {
        if p.in_bounds(size) {
            assert(cell(before, p).is_flagged == cell(after, p).is_flagged);
        }
    }
    if cell(after, at).is_flagged {
        if cell(before, at).is_flagged {
            assert(a =~= b);
        } else {
            assert(a =~= b.insert(at));
        }
    } else {
        if cell(before, at).is_flagged {
            assert(a =~= b.remove(at));
        } else {
            assert(a =~= b);
        }
    }
}

/// A board with fewer mines than cells has a cell without a mine.
pub proof fn free_cell_exists(mines: Seq<Position>, size: u16)
    requires
        mines.len() < size * size,
    ensures
        exists|p: Position| p.in_bounds(size) && !#[trigger] mines.contains(p),
{
    if forall|p: Position| p.in_bounds(size) ==> #[trigger] mines.contains(p) {
        lemma_cells_covered(mines, size);
    }
}

/// Whether `mines` can be the mines of a board of `size` rows and columns:
/// and if not, what stands against it. What is checked first is the number
/// of mines, then that each lies on the board, then that none is named twice.
pub open spec fn layout_fault(size: u16, mines: Seq<Position>) -> Option<GenError> {
    if !fits(size) || mines.len() >= size * size {
        Some(GenError::TooManyMines)
    } else if exists|i: int| 0 <= i < mines.len() && !(#[trigger] mines[i]).in_bounds(size) {
        Some(GenError::OutOfBounds)
    } else if !mines.no_duplicates() {
        Some(GenError::Duplicate)
    } else {
        None
    }
}

/// Checks that `mines` can be the mines of a board of `size` rows and columns.
pub fn check_mines(size: u16, mines: &Vec<Position>) -> (checked: Result<(), GenError>)
    ensures
        checked == match layout_fault(size, mines@) {
            Some(e) => Err::<(), GenError>(e),
            None => Ok(()),
        },
{
    proof {
        fits_from_two(size);
    }
    let cells = cell_count(size);
    if size < 2 || mines.len() as u64 >= cells {
        return Err(GenError::TooManyMines);
    }
    let mut i: usize = 0;
    while i < mines.len()
        invariant
            i <= mines.len(),
            fits(size),
            mines.len() < size * size,
            forall|k: int| 0 <= k < i ==> (#[trigger] mines@[k]).in_bounds(size),
        decreases mines.len() - i,
    {
        if !mines[i].is_within(size) {
            assert(!mines@[i as int].in_bounds(size));
            return Err(GenError::OutOfBounds);
        }
        i += 1;
    }
    let mut i: usize = 0;
    while i < mines.len()
        invariant
            i <= mines.len(),
            fits(size),
            mines.len() < size * size,
            forall|k: int| 0 <= k < mines.len() ==> (#[trigger] mines@[k]).in_bounds(size),
            forall|a: int, b: int| 0 <= a < i && 0 <= b < a ==> mines@[a] != mines@[b],
        decreases mines.len() - i,
    {
        let mut j: usize = 0;
        while j < i
            invariant
                j <= i < mines.len(),
                fits(size),
                mines.len() < size * size,
                forall|k: int| 0 <= k < mines.len() ==> (#[trigger] mines@[k]).in_bounds(size),
                forall|b: int| 0 <= b < j ==> mines@[i as int] != mines@[b],
            decreases i - j,
        {
            if mines[i].0 == mines[j].0 && mines[i].1 == mines[j].1 {
                assert(mines@[i as int] == mines@[j as int]);
                return Err(GenError::Duplicate);
            }
            j += 1;
        }
        i += 1;
    }
    proof {
        assert forall|a: int, b: int|
            0 <= a < mines@.len() && 0 <= b < mines@.len() && a != b implies mines@[a]
            != mines@[b] by {
            if b < a {
            } else {
                assert(mines@[b] != mines@[a]);
            }
        }
    }
    Ok(())
}

/// Generates a board of `size` rows and columns: the mine positions, and
/// the cells that they describe. A size that leaves no cell without a mine
/// is refused.
pub fn gen(size: u16) -> (made: Result<(Vec<Position>, FieldMap), GenError>)
    ensures
        made is Ok <==> fits(size),
        made matches Ok(board) ==> {
            &&& board.0.len() == expected_count(size)
            &&& distinct_cells(board.0@, size)
            &&& laid_out(&board.1, size, board.0@)
            &&& untouched(&board.1, size)
        },
        made matches Err(e) ==> e == GenError::TooManyMines,
{
    match gen_mines(size) {
        Ok(mines) => {
            let field = lay_out(size, &mines);
            Ok((mines, field))
        },
        Err(e) => Err(e),
    }
}

impl Game {
    /// The cell at `p`.
    pub open spec fn cell_at(&self, p: Position) -> Field {
        cell(&self.field, p)
    }

    /// Whether the board is the one that the mine positions describe, and
    /// its size one that a generated board can have.
    pub open spec fn layout_ok(&self) -> bool {
        &&& fits(self.size)
        &&& distinct_cells(self.mines@, self.size)
        &&& self.mines.len() < self.size * self.size
        &&& laid_out(&self.field, self.size, self.mines@)
    }

    /// Whether no revealed cell carries a flag, there are no more flags than
    /// mines, and the counter is the number of mines less the number of flags.
    pub open spec fn counts_ok(&self) -> bool {
        &&& forall|p: Position|
            p.in_bounds(self.size) ==> !((#[trigger] cell(&self.field, p)).is_flagged && cell(
                &self.field,
                p,
            ).is_clicked)
        &&& self.mines_left == self.mines.len() - flagged_cells(&self.field, self.size).len()
        &&& self.mines_left >= 0
    }

    /// Whether the game is over exactly when it is won or lost, the clock
    /// runs only while it is not, and a game without a move has no cell
    /// revealed or flagged.
    pub open spec fn status_ok(&self) -> bool {
        &&& self.ended <==> (detonated(&self.field, self.size) || cleared(&self.field, self.size))
        &&& self.active ==> !self.ended
        &&& !self.active && !self.ended ==> untouched(&self.field, self.size)
    }

    /// Whether the game is in a state that the moves can start from.
    pub open spec fn wf(&self) -> bool {
        &&& self.layout_ok()
        &&& self.counts_ok()
        &&& self.status_ok()
    }

    /// Whether the game was just laid out: no move made, the clock not started.
    pub open spec fn is_fresh(&self) -> bool {
        &&& self.wf()
        &&& !self.active
        &&& !self.ended
        &&& self.mines_left == self.mines.len()
    }

    /// A game on a board that is already laid out.
    fn assemble(size: u16, mines: Vec<Position>, field: FieldMap) -> (game: Game)
        requires
            fits(size),
            distinct_cells(mines@, size),
            mines.len() < size * size,
            laid_out(&field, size, mines@),
            untouched(&field, size),
        ensures
            game.is_fresh(),
            game.size == size,
            game.mines == mines,
            game.field == field,
    {
        proof {
            flags_finite(&field, size);
            assert(flagged_cells(&field, size) =~= Set::empty());
            free_cell_exists(mines@, size);
            let free = choose|p: Position| p.in_bounds(size) && !#[trigger] mines@.contains(p);
            assert(!cell(&field, free).is_clicked);
            assert(!cell(&field, free).is_mine);
            assert(!cleared(&field, size));
            assert(!detonated(&field, size));
            assert(size * size <= 65535 * 65535) by (nonlinear_arith)
                requires
                    0 <= size <= 65535,
            ;
        }
        let mines_left = mines.len() as i64;
        Game { size, mines, field, active: false, ended: false, time: Instant::now(), mines_left }
    }

    /// A game on a generated board of nine rows and columns.
    pub fn new() -> (game: Self)
        ensures
            game.is_fresh(),
            game.size == 9,
            game.mines.len() == expected_count(9),
    {
        let size: u16 = 9;
        proof {
            fits_from_two(size);
        }
        let (mines, field) = gen(size).unwrap();
        Game::assemble(size, mines, field)
    }

    /// A game on a generated board of `size` rows and columns. A size that
    /// leaves no cell without a mine is refused.
    pub fn with_size(size: u16) -> (made: Result<Game, GenError>)
        ensures
            made is Ok <==> fits(size),
            made matches Ok(game) ==> game.is_fresh() && game.size == size && game.mines.len()
                == expected_count(size),
            made matches Err(e) ==> e == GenError::TooManyMines,
    {
        match gen(size) {
            Ok((mines, field)) => Ok(Game::assemble(size, mines, field)),
            Err(e) => Err(e),
        }
    }

    /// A game on the board of `size` rows and columns with the given mines.
    pub fn from_mines(size: u16, mines: Vec<Position>) -> (made: Result<Game, GenError>)
        ensures
            match layout_fault(size, mines@) {
                Some(fault) => made == Err::<Game, GenError>(fault),
                None => made matches Ok(game) && game.is_fresh() && game.size == size && game.mines
                    == mines,
            },
    {
        match check_mines(size, &mines) {
            Ok(()) => {
                let field = lay_out(size, &mines);
                Ok(Game::assemble(size, mines, field))
            },
            Err(e) => Err(e),
        }
    }

    /// Starts the clock.
    pub fn start_timer(&mut self)
        ensures
            final(self).active,
            final(self).size == old(self).size,
            final(self).mines == old(self).mines,
            final(self).field == old(self).field,
            final(self).ended == old(self).ended,
            final(self).mines_left == old(self).mines_left,
            old(self).wf() && !old(self).ended ==> final(self).wf(),
    {
        self.active = true;
        self.time = Instant::now();
    }

    /// Starts over: lays out a new generated board of the same size, takes
    /// every flag away and stops the clock.
    pub fn new_mines(&mut self)
        requires
            fits(old(self).size),
        ensures
            final(self).is_fresh(),
            final(self).size == old(self).size,
            final(self).mines.len() == expected_count(old(self).size),
    {
        let (mines, field) = gen(self.size).unwrap();
        *self = Game::assemble(self.size, mines, field);
    }

    /// Whether a flag request on `pos` changes the flag of that cell: the game
    /// is not over, the cell is on the board and not revealed, and a flag
    /// that would be set is not one more than there are mines.
    pub open spec fn can_toggle(&self, pos: Position) -> bool {
        &&& !self.ended
        &&& pos.in_bounds(self.size)
        &&& !self.cell_at(pos).is_clicked
        &&& (self.cell_at(pos).is_flagged || self.mines_left > 0)
    }

    /// Whether a reveal request on `pos` reveals that cell: the game is not
    /// over, and the cell is on the board and not revealed.
    pub open spec fn can_open(&self, pos: Position) -> bool {
        &&& !self.ended
        &&& pos.in_bounds(self.size)
        &&& !self.cell_at(pos).is_clicked
    }

    /// Whether revealing `pos` also reveals `p`.
    pub open spec fn opens(&self, pos: Position, p: Position) -> bool {
        p == pos || floods(&self.field, self.size, pos, p)
    }

    /// Reveals the cell at `p` and takes its flag away.
    fn open_cell(&mut self, p: Position)
        requires
            old(self).layout_ok(),
            old(self).counts_ok(),
            p.in_bounds(old(self).size),
        ensures
            final(self).layout_ok(),
            final(self).counts_ok(),
            final(self).size == old(self).size,
            final(self).mines == old(self).mines,
            final(self).active == old(self).active,
            final(self).ended == old(self).ended,
            final(self).time == old(self).time,
            final(self).cell_at(p) == opened(old(self).cell_at(p)),
            forall|q: Position|
                q.in_bounds(old(self).size) && q != p ==> #[trigger] cell(&final(self).field, q)
                    == cell(&old(self).field, q),
    {
        let ghost before = self.field;
        let row = p.0 as usize;
        let col = p.1 as usize;
        let was_flagged = self.field[row][col].is_flagged;
        self.field[row][col].is_clicked = true;
        self.field[row][col].is_flagged = false;
        proof {
            assert forall|q: Position| q.in_bounds(self.size) && q != p implies #[trigger] cell(
                &self.field,
                q,
            ) == cell(&before, q) by {}
            assert forall|q: Position| q.in_bounds(self.size) implies same_layout(
                cell(&before, q),
                #[trigger] cell(&self.field, q),
            ) by {
                if q != p {
                    assert(cell(&self.field, q) == cell(&before, q));
                }
            }
            layout_kept(&before, &self.field, self.size, self.mines@);
            assert forall|q: Position|
                q.in_bounds(self.size) && q != p implies cell(&before, q).is_flagged == (
            #[trigger] cell(&self.field, q)).is_flagged by {
                assert(cell(&self.field, q) == cell(&before, q));
            }
            flags_after_change(&before, &self.field, self.size, p);
            flags_finite(&before, self.size);
            assert(was_flagged ==> flagged_cells(&before, self.size).contains(p));
            assert forall|q: Position| q.in_bounds(self.size) implies !((#[trigger] cell(
                &self.field,
                q,
            )).is_flagged && cell(&self.field, q).is_clicked) by {
                if q != p {
                    assert(cell(&self.field, q) == cell(&before, q));
                }
            }
            assert(self.size * self.size <= 65535 * 65535) by (nonlinear_arith)
                requires
                    0 <= self.size <= 65535,
            ;
        }
        if was_flagged {
            self.mines_left = self.mines_left + 1;
        }
    }

    /// Whether the revealed cells are exactly the cells without a mine.
    pub fn is_complete(&self) -> (complete: bool)
        requires
            is_square(&self.field, self.size),
        ensures
            complete == cleared(&self.field, self.size),
    {
        let mut row: u16 = 0;
        while row < self.size
            invariant
                row <= self.size,
                is_square(&self.field, self.size),
                forall|p: Position|
                    p.in_bounds(self.size) && p.0 < row ==> ((#[trigger] cell(
                        &self.field,
                        p,
                    )).is_clicked <==> !cell(&self.field, p).is_mine),
            decreases self.size - row,
        {
            let mut col: u16 = 0;
            while col < self.size
                invariant
                    col <= self.size,
                    row < self.size,
                    is_square(&self.field, self.size),
                    forall|p: Position|
                        p.in_bounds(self.size) && (p.0 < row || (p.0 == row && p.1 < col)) ==> ((
                        #[trigger] cell(&self.field, p)).is_clicked <==> !cell(
                            &self.field,
                            p,
                        ).is_mine),
                decreases self.size - col,
            {
                let here = &self.field[row as usize][col as usize];
                if here.is_clicked == here.is_mine {
                    assert(cell(&self.field, Position(row, col)) == *here);
                    return false;
                }
                proof {
                    assert forall|p: Position|
                        p.in_bounds(self.size) && (p.0 < row || (p.0 == row && p.1 < col + 1))
                            implies ((#[trigger] cell(&self.field, p)).is_clicked <==> !cell(
                        &self.field,
                        p,
                    ).is_mine) by {
                        if p.0 == row && p.1 == col {
                            assert(p == Position(row, col));
                        }
                    }
                }
                col += 1;
            }
            row += 1;
        }
        true
    }

    /// Reveals the cells that open by themselves when the blank cell at
    /// `position` is revealed, takes their flags away, and lists them with
    /// what they show. The cell at `position` itself is not among them.
    fn flood(&mut self, position: &Position) -> (report: Vec<(Position, CellDisplay)>)
        requires
            old(self).layout_ok(),
            old(self).counts_ok(),
        ensures
            final(self).layout_ok(),
            final(self).counts_ok(),
            final(self).size == old(self).size,
            final(self).mines == old(self).mines,
            final(self).active == old(self).active,
            final(self).ended == old(self).ended,
            final(self).time == old(self).time,
            forall|p: Position|
                p.in_bounds(old(self).size) ==> #[trigger] cell(&final(self).field, p) == (if floods(
                    &old(self).field,
                    old(self).size,
                    *position,
                    p,
                ) {
                    opened(cell(&old(self).field, p))
                } else {
                    cell(&old(self).field, p)
                }),
            reports(
                report@,
                &final(self).field,
                flood_region(&old(self).field, old(self).size, *position),
            ),
    {
        proof {
            laid_out_adjacency(&self.field, self.size, self.mines@);
        }
        let region = get_tiles_around(position, &self.field, self.size);
        let ghost start = self.field;
        let ghost size = self.size;
        let mut report: Vec<(Position, CellDisplay)> = Vec::new();
        let mut i: usize = 0;
        while i < region.len()
            invariant
                i <= region.len(),
                self.layout_ok(),
                self.counts_ok(),
                self.size == size,
                self.size == old(self).size,
                self.mines == old(self).mines,
                self.active == old(self).active,
                self.ended == old(self).ended,
                self.time == old(self).time,
                region@.no_duplicates(),
                forall|p: Position|
                    #![trigger region@.contains(p)]
                    #![trigger floods(&start, size, *position, p)]
                    region@.contains(p) <==> floods(&start, size, *position, p),
                forall|p: Position|
                    p.in_bounds(size) ==> #[trigger] cell(&self.field, p) == (if exists|k: int|
                        0 <= k < i && #[trigger] region@[k] == p {
                        opened(cell(&start, p))
                    } else {
                        cell(&start, p)
                    }),
                report.len() == i,
                forall|k: int|
                    0 <= k < i ==> (#[trigger] report@[k]).0 == region@[k] && report@[k].1 == opened(
                        cell(&start, region@[k]),
                    ).shown(),
            decreases region.len() - i,
        {
            let q = region[i];
            let ghost earlier = self.field;
            proof {
                assert(region@.contains(q));
                assert(floods(&start, size, *position, q));
                assert(cell(&earlier, q) == cell(&start, q)) by {
                    if exists|k: int| 0 <= k < i && #[trigger] region@[k] == q {
                        let k = choose|k: int| 0 <= k < i && #[trigger] region@[k] == q;
                        assert(region@[k] == region@[i as int]);
                    }
                }
            }
            self.open_cell(q);
            let shown = self.field[q.0 as usize][q.1 as usize].display();
            report.push((q, shown));
            proof {
                assert forall|p: Position| p.in_bounds(size) implies #[trigger] cell(
                    &self.field,
                    p,
                ) == (if exists|k: int| 0 <= k < i + 1 && #[trigger] region@[k] == p {
                    opened(cell(&start, p))
                } else {
                    cell(&start, p)
                }) by {
                    if p == q {
                        assert(region@[i as int] == p);
                    } else {
                        assert(cell(&self.field, p) == cell(&earlier, p));
                        if exists|k: int| 0 <= k < i && #[trigger] region@[k] == p {
                            let k = choose|k: int| 0 <= k < i && #[trigger] region@[k] == p;
                            assert(0 <= k < i + 1 && region@[k] == p);
                        } else if exists|k: int| 0 <= k < i + 1 && #[trigger] region@[k] == p {
                            let k = choose|k: int| 0 <= k < i + 1 && #[trigger] region@[k] == p;
                            assert(k == i);
                        }
                    }
                }
            }
            i += 1;
        }
        proof {
            let region_set = flood_region(&start, size, *position);
            assert forall|p: Position| p.in_bounds(size) implies #[trigger] cell(&self.field, p) == (
            if floods(&start, size, *position, p) {
                opened(cell(&start, p))
            } else {
                cell(&start, p)
            }) by {
                if floods(&start, size, *position, p) {
                    assert(region@.contains(p));
                    let k = choose|k: int| 0 <= k < region@.len() && region@[k] == p;
                    assert(0 <= k < i && region@[k] == p);
                } else {
                    if exists|k: int| 0 <= k < i && #[trigger] region@[k] == p {
                        let k = choose|k: int| 0 <= k < i && #[trigger] region@[k] == p;
                        assert(region@.contains(p));
                    }
                }
            }
            assert forall|a: int, b: int|
                0 <= a < report@.len() && 0 <= b < report@.len() && a != b implies (
            #[trigger] report@[a]).0 != (#[trigger] report@[b]).0 by {
                assert(region@[a] != region@[b]);
            }
            assert forall|k: int| 0 <= k < report@.len() implies region_set.contains(
                (#[trigger] report@[k]).0,
            ) && report@[k].1 == cell(&self.field, report@[k].0).shown() by {
                assert(region@.contains(region@[k]));
                assert(floods(&start, size, *position, region@[k]));
                assert(cell(&self.field, region@[k]) == opened(cell(&start, region@[k])));
            }
            assert forall|p: Position| region_set.contains(p) implies exists|k: int|
                0 <= k < report@.len() && (#[trigger] report@[k]).0 == p by {
                assert(region@.contains(p));
                let k = choose|k: int| 0 <= k < region@.len() && region@[k] == p;
                assert(report@[k].0 == p);
            }
        }
        report
    }

    /// What a flag request on `position` does: `self` is the game before it,
    /// `after` the game after it, `outcome` what it reports.
    pub open spec fn flag_step(&self, after: &Game, position: Position, outcome: FlagOutcome) -> bool {
        &&& after.size == self.size
        &&& after.mines == self.mines
        &&& after.ended == self.ended
        &&& self.ended ==> *after == *self
        &&& !self.ended ==> after.active
        &&& self.active ==> after.time == self.time
        &&& self.can_toggle(position) ==> {
            &&& after.cell_at(position) == toggled(self.cell_at(position))
            &&& forall|p: Position|
                p.in_bounds(self.size) && p != position ==> #[trigger] cell(&after.field, p) == cell(
                    &self.field,
                    p,
                )
            &&& self.cell_at(position).is_flagged ==> after.mines_left == self.mines_left + 1
                && outcome == FlagOutcome::Unflagged(after.mines_left)
            &&& !self.cell_at(position).is_flagged ==> after.mines_left == self.mines_left - 1
                && outcome == FlagOutcome::Flagged(after.mines_left)
        }
        &&& !self.can_toggle(position) ==> {
            &&& after.field == self.field
            &&& after.mines_left == self.mines_left
            &&& outcome == FlagOutcome::NoOp
        }
    }

    /// Sets a flag on the cell at `position`, or takes its flag away.
    ///
    /// Nothing happens once the game is over. Otherwise the clock is started
    /// if it does not run yet; then the flag changes if the cell is on the
    /// board and not revealed. A flag is not set while as many flags stand as
    /// there are mines: the counter never falls below zero.
    pub fn toggle_flag(&mut self, position: Position) -> (outcome: FlagOutcome)
        requires
            old(self).wf(),
        ensures
            final(self).wf(),
            old(self).flag_step(final(self), position, outcome),
    {
        if self.ended {
            return FlagOutcome::NoOp;
        }
        if !self.active {
            self.start_timer();
        }
        if !position.is_within(self.size) {
            return FlagOutcome::NoOp;
        }
        let row = position.0 as usize;
        let col = position.1 as usize;
        if self.field[row][col].is_clicked {
            return FlagOutcome::NoOp;
        }
        let was_flagged = self.field[row][col].is_flagged;
        if !was_flagged && self.mines_left <= 0 {
            return FlagOutcome::NoOp;
        }
        let ghost before = self.field;
        self.field[row][col].is_flagged = !was_flagged;
        proof {
            assert forall|q: Position|
                q.in_bounds(self.size) && q != position implies #[trigger] cell(&self.field, q)
                == cell(&before, q) by {}
            assert forall|q: Position| q.in_bounds(self.size) implies same_layout(
                cell(&before, q),
                #[trigger] cell(&self.field, q),
            ) by {
                if q != position {
                    assert(cell(&self.field, q) == cell(&before, q));
                }
            }
            layout_kept(&before, &self.field, self.size, self.mines@);
            assert forall|q: Position|
                q.in_bounds(self.size) && q != position implies cell(&before, q).is_flagged == (
            #[trigger] cell(&self.field, q)).is_flagged by {
                assert(cell(&self.field, q) == cell(&before, q));
            }
            flags_after_change(&before, &self.field, self.size, position);
            flags_finite(&before, self.size);
            assert(was_flagged ==> flagged_cells(&before, self.size).contains(position));
            assert forall|q: Position| q.in_bounds(self.size) implies !((#[trigger] cell(
                &self.field,
                q,
            )).is_flagged && cell(&self.field, q).is_clicked) by {
                if q != position {
                    assert(cell(&self.field, q) == cell(&before, q));
                    assert(!(cell(&before, q).is_flagged && cell(&before, q).is_clicked));
                }
            }
            assert forall|q: Position| q.in_bounds(self.size) implies (#[trigger] cell(
                &self.field,
                q,
            )).is_clicked == cell(&before, q).is_clicked && cell(&self.field, q).is_mine == cell(
                &before,
                q,
            ).is_mine by {
                if q != position {
                    assert(cell(&self.field, q) == cell(&before, q));
                }
            }
            assert(!detonated(&self.field, self.size)) by {
                if detonated(&self.field, self.size) {
                    let w = choose|p: Position|
                        p.in_bounds(self.size) && (#[trigger] cell(&self.field, p)).is_mine && cell(
                            &self.field,
                            p,
                        ).is_clicked;
                    assert(cell(&before, w).is_mine && cell(&before, w).is_clicked);
                }
            }
            assert(!cleared(&self.field, self.size)) by {
                if cleared(&self.field, self.size) {
                    assert forall|p: Position| p.in_bounds(self.size) implies ((#[trigger] cell(
                        &before,
                        p,
                    )).is_clicked <==> !cell(&before, p).is_mine) by {
                        assert(cell(&self.field, p).is_clicked == cell(&before, p).is_clicked);
                    }
                }
            }
            assert(self.size * self.size <= 65535 * 65535) by (nonlinear_arith)
                requires
                    0 <= self.size <= 65535,
            ;
        }
        if was_flagged {
            self.mines_left = self.mines_left + 1;
            FlagOutcome::Unflagged(self.mines_left)
        } else {
            self.mines_left = self.mines_left - 1;
            FlagOutcome::Flagged(self.mines_left)
        }
    }

    /// What a reveal request on `position` reports, given the game before
    /// (`self`) and after (`after`) it.
    pub open spec fn reports_move(
        &self,
        after: &Game,
        position: Position,
        as_flag: bool,
        outcome: RevealOutcome,
    ) -> bool {
        if as_flag {
            if self.can_toggle(position) {
                outcome == RevealOutcome::Flagged(after.mines_left)
            } else {
                outcome == RevealOutcome::NoOp
            }
        } else if !self.can_open(position) {
            outcome == RevealOutcome::NoOp
        } else if self.cell_at(position).is_mine {
            outcome == RevealOutcome::Lost
        } else if cleared(&after.field, after.size) {
            outcome == RevealOutcome::Won
        } else if self.cell_at(position).mines_around == 0 {
            outcome matches RevealOutcome::Flooded(list) && reports(
                list@,
                &after.field,
                flood_region(&self.field, self.size, position),
            )
        } else {
            outcome == RevealOutcome::Cleared(after.cell_at(position).shown())
        }
    }

    /// What a request on `position` does: `self` is the game before it,
    /// `after` the game after it, `outcome` what it reports.
    pub open spec fn reveal_step(
        &self,
        after: &Game,
        position: Position,
        as_flag: bool,
        outcome: RevealOutcome,
    ) -> bool {
        &&& after.size == self.size
        &&& after.mines == self.mines
        &&& self.ended ==> *after == *self
        &&& !self.ended ==> after.active == !after.ended
        &&& self.active ==> after.time == self.time
        &&& as_flag ==> after.ended == self.ended
        &&& as_flag && self.can_toggle(position) ==> {
            &&& after.cell_at(position) == toggled(self.cell_at(position))
            &&& forall|p: Position|
                p.in_bounds(self.size) && p != position ==> #[trigger] cell(&after.field, p) == cell(
                    &self.field,
                    p,
                )
            &&& after.mines_left == self.mines_left + (if self.cell_at(position).is_flagged {
                1int
            } else {
                -1
            })
        }
        &&& as_flag && !self.can_toggle(position) || !as_flag && !self.can_open(position) ==> {
            &&& after.field == self.field
            &&& after.mines_left == self.mines_left
            &&& after.ended == self.ended
        }
        &&& !as_flag && self.can_open(position) ==> {
            &&& forall|p: Position|
                p.in_bounds(self.size) ==> #[trigger] cell(&after.field, p) == (if self.opens(
                    position,
                    p,
                ) {
                    opened(cell(&self.field, p))
                } else {
                    cell(&self.field, p)
                })
            &&& after.ended == (self.cell_at(position).is_mine || cleared(&after.field, after.size))
        }
        &&& self.reports_move(after, position, as_flag, outcome)
    }

    /// Handles one request on the cell at `position`: to set or take away
    /// its flag (`as_flag`), or to reveal it.
    ///
    /// Nothing happens once the game is over. Otherwise the clock is started
    /// if it does not run yet, and then:
    /// - a flag request does what `toggle_flag` does;
    /// - a reveal request on a cell that is off the board or already revealed
    ///   changes no cell;
    /// - a reveal request on a mine ends the game as lost;
    /// - any other reveal request shows the cell, and with a blank cell all
    ///   that floods from it; a flag on a cell that is shown goes. The game
    ///   ends as won when no cell without a mine is left hidden.
    pub fn reveal_cell(&mut self, position: Position, as_flag: bool) -> (outcome: RevealOutcome)
        requires
            old(self).wf(),
        ensures
            final(self).wf(),
            old(self).reveal_step(final(self), position, as_flag, outcome),
    {
        if as_flag {
            return match self.toggle_flag(position) {
                FlagOutcome::NoOp => RevealOutcome::NoOp,
                FlagOutcome::Flagged(left) => RevealOutcome::Flagged(left),
                FlagOutcome::Unflagged(left) => RevealOutcome::Flagged(left),
            };
        }
        if self.ended {
            return RevealOutcome::NoOp;
        }
        if !self.active {
            self.start_timer();
        }
        if !position.is_within(self.size) {
            return RevealOutcome::NoOp;
        }
        let row = position.0 as usize;
        let col = position.1 as usize;
        if self.field[row][col].is_clicked {
            return RevealOutcome::NoOp;
        }
        let is_mine = self.field[row][col].is_mine;
        let blank = !is_mine && self.field[row][col].mines_around == 0;
        let ghost before = self.field;
        let ghost size = self.size;
        let report = if blank {
            self.flood(&position)
        } else {
            proof {
                crate::flood::no_flood_without_blank_seed(&before, size, position);
            }
            Vec::new()
        };
        let ghost flooded = self.field;
        self.open_cell(position);
        proof {
            assert forall|p: Position| p.in_bounds(size) implies #[trigger] cell(&self.field, p) == (
            if old(self).opens(position, p) {
                opened(cell(&before, p))
            } else {
                cell(&before, p)
            }) by {
                if p != position {
                    assert(cell(&self.field, p) == cell(&flooded, p));
                }
                assert(cell(&flooded, p) == (if floods(&before, size, position, p) {
                    opened(cell(&before, p))
                } else {
                    cell(&before, p)
                }));
            }
            if blank {
                let region = flood_region(&before, size, position);
                assert forall|k: int| 0 <= k < report@.len() implies region.contains(
                    (#[trigger] report@[k]).0,
                ) && report@[k].1 == cell(&self.field, report@[k].0).shown() by {
                    assert(region.contains(report@[k].0));
                    assert(floods(&before, size, position, report@[k].0));
                    assert(cell(&self.field, report@[k].0) == cell(&flooded, report@[k].0));
                }
                assert(reports(report@, &self.field, region));
            }
            if !is_mine {
                assert(!detonated(&self.field, size)) by {
                    if detonated(&self.field, size) {
                        let w = choose|p: Position|
                            p.in_bounds(size) && (#[trigger] cell(&self.field, p)).is_mine && cell(
                                &self.field,
                                p,
                            ).is_clicked;
                        assert(cell(&before, w).is_mine && cell(&before, w).is_clicked);
                    }
                }
            } else {
                assert(cell(&self.field, position).is_mine && cell(&self.field, position).is_clicked);
                assert(detonated(&self.field, size));
            }
        }
        if is_mine {
            self.active = false;
            self.ended = true;
            return RevealOutcome::Lost;
        }
        if self.is_complete() {
            self.active = false;
            self.ended = true;
            return RevealOutcome::Won;
        }
        if blank {
            RevealOutcome::Flooded(report)
        } else {
            RevealOutcome::Cleared(self.field[row][col].display())
        }
    }

    /// Where the game stands.
    pub fn status(&self) -> (status: Status)
        requires
            self.wf(),
        ensures
            status == (if cleared(&self.field, self.size) {
                Status::Won
            } else if detonated(&self.field, self.size) {
                Status::Lost
            } else if self.active {
                Status::Active
            } else {
                Status::Fresh
            }),
    {
        if self.ended {
            if self.is_complete() {
                Status::Won
            } else {
                Status::Lost
            }
        } else if self.active {
            Status::Active
        } else {
            Status::Fresh
        }
    }

    /// The number of mines less the number of flags.
    pub fn remaining_mines(&self) -> (left: i64)
        ensures
            left == self.mines_left,
    {
        self.mines_left
    }

    /// The whole seconds since the clock was started; zero while it does not run.
    pub fn elapsed_seconds(&self) -> (secs: u64)
        ensures
            !self.active ==> secs == 0,
    {
        if self.active {
            self.time.elapsed().as_secs()
        } else {
            0
        }
    }

    /// The clock that a front end shows: a text while the clock runs, and
    /// nothing while it does not.
    pub fn clock(&self) -> (shown: Option<String>)
        ensures
            shown is Some <==> self.active,
            shown matches Some(text) ==> exists|secs: u64| text@ == #[trigger] clock_face(secs),
    {
        if self.active {
            let secs = self.elapsed_seconds();
            let text = clock_text(secs);
            assert(text@ == clock_face(secs));
            Some(text)
        } else {
            None
        }
    }

    /// What a front end draws for the cell at `position`; nothing for a
    /// position off the board.
    pub fn cell_display(&self, position: Position) -> (shown: Option<CellDisplay>)
        requires
            is_square(&self.field, self.size),
        ensures
            shown == (if position.in_bounds(self.size) {
                Some(self.cell_at(position).shown())
            } else {
                None
            }),
    {
        if position.is_within(self.size) {
            Some(self.field[position.0 as usize][position.1 as usize].display())
        } else {
            None
        }
    }

    /// Changes the size of the board. With the size that the board has
    /// nothing happens; with another, a new generated board of that size is
    /// laid out, unless that size leaves no cell without a mine.
    pub fn resize(&mut self, new_size: u16) -> (done: Result<(), GenError>)
        ensures
            new_size == old(self).size ==> done is Ok && *final(self) == *old(self),
            new_size != old(self).size && fits(new_size) ==> done is Ok && final(self).is_fresh()
                && final(self).size == new_size && final(self).mines.len() == expected_count(
                new_size,
            ),
            new_size != old(self).size && !fits(new_size) ==> done == Err::<(), GenError>(
                GenError::TooManyMines,
            ) && *final(self) == *old(self),
    {
        if new_size == self.size {
            return Ok(());
        }
        match gen(new_size) {
            Ok((mines, field)) => {
                *self = Game::assemble(new_size, mines, field);
                Ok(())
            },
            Err(e) => Err(e),
        }
    }
}

} // verus!
