//! Mine placement: how many mines a board gets, and where they go.

use crate::board::holds;
use crate::grid::{lemma_cells_covered, push_contains};
use crate::position::Position;
use rand::rngs::ThreadRng;
use rand::Rng;
use vstd::prelude::*;

verus! {

/// `rand::rngs::ThreadRng`: the random number generator of a thread, opaque here.
#[verifier::external_type_specification]
#[verifier::external_body]
pub struct ExThreadRng(ThreadRng);

/// `rand::thread_rng` hands out the generator of the calling thread.
/// Nothing is claimed of it.
pub assume_specification[ rand::thread_rng ]() -> (rng: ThreadRng)
;

/// Why a board cannot be made.
#[derive(Debug, Copy, Clone, PartialEq, Eq, Structural)]
pub enum GenError {
    /// The board has no cell left without a mine.
    TooManyMines,
    /// A mine lies outside the board.
    OutOfBounds,
    /// Two mines share a cell.
    Duplicate,
}

impl GenError {
    /// The text of each error.
    pub open spec fn text(self) -> Seq<char> {
        match self {
            GenError::TooManyMines => "the board must keep at least one cell without a mine"@,
            GenError::OutOfBounds => "a mine lies outside the board"@,
            GenError::Duplicate => "two mines share one cell"@,
        }
    }

    /// A sentence that says what is wrong.
    pub fn message(&self) -> (text: String)
        ensures
            text@ == self.text(),
    {
        match self {
            GenError::TooManyMines => "the board must keep at least one cell without a mine".to_string(),
            GenError::OutOfBounds => "a mine lies outside the board".to_string(),
            GenError::Duplicate => "two mines share one cell".to_string(),
        }
    }
}

/// The number of mines on a generated board of `size` rows and columns: one
/// more than `size` up to ten, and three for each further step beyond.
pub open spec fn expected_count(size: u16) -> nat {
    let total = size + 1;
    if total > 10 {
        (10 + (total - 10) * 3) as nat
    } else {
        total as nat
    }
}

/// Whether a generated board of this size keeps a cell without a mine.
pub open spec fn fits(size: u16) -> bool {
    expected_count(size) < size * size
}

/// Whether `mines` names cells of the board, none of them twice.
pub open spec fn distinct_cells(mines: Seq<Position>, size: u16) -> bool {
    &&& mines.no_duplicates()
    &&& forall|i: int| 0 <= i < mines.len() ==> (#[trigger] mines[i]).in_bounds(size)
}

/// Every board but the two smallest keeps a cell without a mine.
pub proof fn fits_from_two(size: u16)
    ensures
        fits(size) <==> size >= 2,
{
    let s = size as int;
    if s >= 10 {
        assert(10 + (s + 1 - 10) * 3 < s * s) by (nonlinear_arith)
            requires
                s >= 10,
        ;
    } else if s >= 2 {
        assert(s + 1 < s * s) by (nonlinear_arith)
            requires
                s >= 2,
        ;
    } else {
        assert(s * s <= s + 1) by (nonlinear_arith)
            requires
                0 <= s < 2,
        ;
    }
}

/// The number of mines on a generated board of `size` rows and columns.
pub fn mine_count(size: u16) -> (count: u32)
    ensures
        count == expected_count(size),
{
    let total: u32 = size as u32 + 1;
    if total > 10 {
        10 + (total - 10) * 3
    } else {
        total
    }
}

/// The number of cells of a board of `size` rows and columns.
pub fn cell_count(size: u16) -> (count: u64)
    ensures
        count == size * size,
{
    assert(size * size <= 65535 * 65535) by (nonlinear_arith)
        requires
            0 <= size <= 65535,
    ;
    (size as u64) * (size as u64)
}

/// `rand::Rng::gen_range` from zero up to `bound`, which it leaves out: some
/// number below `bound`. Which one is left open; with a bound of zero the
/// outside function panics.
#[verifier::external_body]
fn random_below(rng: &mut ThreadRng, bound: u16) -> (n: u16)
    requires
        bound > 0,
    ensures
        n < bound,
{
    rng.gen_range(0, bound)
}

/// Some cell of a board of `size` rows and columns.
fn random_position(rng: &mut ThreadRng, size: u16) -> (p: Position)
    requires
        size > 0,
    ensures
        p.in_bounds(size),
{
    let row = random_below(rng, size);
    let col = random_below(rng, size);
    Position(row, col)
}

/// Adds `candidate` to `mines` unless it is there already, and says whether
/// it was added.
pub fn place_mine(mines: &mut Vec<Position>, candidate: Position) -> (placed: bool)
    ensures
        placed == !old(mines)@.contains(candidate),
        placed ==> final(mines)@ == old(mines)@.push(candidate),
        !placed ==> final(mines)@ == old(mines)@,
{
    if holds(mines, &candidate) {
        false
    } else {
        mines.push(candidate);
        true
    }
}

/// Adding a cell that `mines` lacks keeps the cells distinct.
proof fn distinct_after_push(mines: Seq<Position>, size: u16, p: Position)
    requires
        distinct_cells(mines, size),
        p.in_bounds(size),
        !mines.contains(p),
    ensures
        distinct_cells(mines.push(p), size),
{
    let longer = mines.push(p);
    assert forall|i: int, j: int|
        0 <= i < longer.len() && 0 <= j < longer.len() && i != j implies longer[i] != longer[j] by {
        if i < mines.len() {
            assert(mines.contains(mines[i]));
        }
        if j < mines.len() {
            assert(mines.contains(mines[j]));
        }
    }
}

/// Adds free cells to `mines`, in reading order, until it holds `target` cells.
fn fill_up(mines: &mut Vec<Position>, size: u16, target: usize)
    requires
        distinct_cells(old(mines)@, size),
        old(mines).len() <= target < size * size,
    ensures
        distinct_cells(final(mines)@, size),
        final(mines).len() == target,
{
    let mut row: u16 = 0;
    while row < size
        invariant
            row <= size,
            distinct_cells(mines@, size),
            mines.len() <= target < size * size,
            forall|p: Position| p.in_bounds(size) && p.0 < row ==> #[trigger] mines@.contains(p),
        decreases size - row,
    {
        let mut col: u16 = 0;
        while col < size
            invariant
                col <= size,
                row < size,
                distinct_cells(mines@, size),
                mines.len() <= target < size * size,
                forall|p: Position|
                    p.in_bounds(size) && (p.0 < row || (p.0 == row && p.1 < col))
                        ==> #[trigger] mines@.contains(p),
            decreases size - col,
        {
            if mines.len() == target {
                return ;
            }
            let next = Position(row, col);
            let ghost earlier = mines@;
            if place_mine(mines, next) {
                proof {
                    distinct_after_push(earlier, size, next);
                }
            }
            proof {
                push_contains(earlier, next);
                assert forall|p: Position|
                    p.in_bounds(size) && (p.0 < row || (p.0 == row && p.1 < col + 1))
                        implies #[trigger] mines@.contains(p) by {
                    if p.0 == row && p.1 == col {
                        assert(p == next);
                    } else {
                        assert(earlier.contains(p));
                    }
                }
            }
            col += 1;
        }
        row += 1;
    }
    proof {
        lemma_cells_covered(mines@, size);
    }
}

/// How many samples `gen_mines` takes before it stops sampling and fills the
/// board in reading order instead.
pub const SAMPLE_BUDGET: u64 = 0xffff_ffff_ffff_ffff;

/// Places the mines of a board of `size` rows and columns: cells are drawn
/// at random, a cell drawn twice counts once, until the board holds
/// `expected_count(size)` mines. Should `SAMPLE_BUDGET` samples not be
/// enough, the mines that are still wanted go to the first free cells in
/// reading order, so that the placement always ends. A size for which the
/// mines leave no free cell is refused.
pub fn gen_mines(size: u16) -> (made: Result<Vec<Position>, GenError>)
    ensures
        made is Ok <==> fits(size),
        made matches Ok(mines) ==> mines.len() == expected_count(size) && distinct_cells(
            mines@,
            size,
        ),
        made matches Err(e) ==> e == GenError::TooManyMines,
{
    let wanted = mine_count(size);
    if wanted as u64 >= cell_count(size) {
        return Err(GenError::TooManyMines);
    }
    let target = wanted as usize;
    let mut mines: Vec<Position> = Vec::new();
    let mut budget: u64 = SAMPLE_BUDGET;
    let mut rng = rand::thread_rng();
    while mines.len() < target && budget > 0
        invariant
            size > 0,
            distinct_cells(mines@, size),
            mines.len() <= target < size * size,
        decreases budget,
    {
        budget -= 1;
        let candidate = random_position(&mut rng, size);
        let ghost earlier = mines@;
        if place_mine(&mut mines, candidate) {
            proof {
                distinct_after_push(earlier, size, candidate);
            }
        }
    }
    fill_up(&mut mines, size, target);
    Ok(mines)
}

} // verus!
