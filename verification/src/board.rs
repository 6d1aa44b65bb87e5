//! Laying out a board: which cells are mines, and what each cell knows of its
//! neighbours.

use crate::field::Field;
use crate::grid::{is_neighbor, neighbor_set, p_around, push_contains, row_major, row_major_no_duplicates};
use crate::position::Position;
use vstd::prelude::*;

verus! {

/// The cells of a board, row by row: the cell at `Position(r, c)` is
/// `field[r][c]`.
pub type FieldMap = Vec<Vec<Field>>;

/// The cell at `p`.
pub open spec fn cell(field: &FieldMap, p: Position) -> Field {
    field[p.0 as int][p.1 as int]
}

/// Whether `field` has `size` rows of `size` cells.
pub open spec fn is_square(field: &FieldMap, size: u16) -> bool {
    &&& field.len() == size
    &&& forall|r: int| 0 <= r < size ==> (#[trigger] field[r]).len() == size
}

/// How many of the cells around `p` are mines.
pub open spec fn mines_near(p: Position, size: u16, mines: Seq<Position>) -> nat {
    neighbor_set(p, size).intersect(mines.to_set()).len()
}

/// Whether a cell holds what the mine positions say of the cell at `p`.
pub open spec fn cell_matches(f: Field, p: Position, size: u16, mines: Seq<Position>) -> bool {
    &&& f.is_mine == mines.contains(p)
    &&& f.mines_around == mines_near(p, size, mines)
    &&& row_major(f.adjecent_empty@)
    &&& forall|q: Position|
        #![trigger f.adjecent_empty@.contains(q)]
        #![trigger is_neighbor(p, q, size)]
        f.adjecent_empty@.contains(q) <==> (is_neighbor(p, q, size) && !mines.contains(q))
}

/// Whether `field` is the board that the mine positions `mines` describe.
pub open spec fn laid_out(field: &FieldMap, size: u16, mines: Seq<Position>) -> bool {
    &&& is_square(field, size)
    &&& forall|p: Position|
        p.in_bounds(size) ==> cell_matches(#[trigger] cell(field, p), p, size, mines)
}

/// Whether no cell of `field` is revealed or flagged.
pub open spec fn untouched(field: &FieldMap, size: u16) -> bool {
    forall|p: Position|
        p.in_bounds(size) ==> !(#[trigger] cell(field, p)).is_clicked && !cell(field, p).is_flagged
}

/// Whether `mines` holds `p`.
pub fn holds(mines: &Vec<Position>, p: &Position) -> (found: bool)
    ensures
        found == mines@.contains(*p),
{
    let mut i: usize = 0;
    while i < mines.len()
        invariant
            i <= mines.len(),
            forall|k: int| 0 <= k < i ==> mines@[k] != *p,
        decreases mines.len() - i,
    {
        if mines[i].0 == p.0 && mines[i].1 == p.1 {
            return true;
        }
        i += 1;
    }
    false
}

/// Taking one more item of a duplicate-free sequence adds one to the part of
/// it that lies in `m` exactly when the item lies in `m`.
proof fn lemma_count_step(s: Seq<Position>, i: int, m: Set<Position>)
    requires
        0 <= i < s.len(),
        s.no_duplicates(),
    ensures
        s.take(i).to_set().intersect(m).finite(),
        s.take(i + 1).to_set().intersect(m).len() == s.take(i).to_set().intersect(m).len() + (if m.contains(
            s[i],
        ) {
            1nat
        } else {
            0nat
        }),
{
    let a = s.take(i).to_set();
    let b = s.take(i + 1).to_set();
    vstd::seq_lib::seq_to_set_is_finite(s.take(i));
    assert(!a.contains(s[i])) by {
        if a.contains(s[i]) {
            let k = choose|k: int| 0 <= k < s.take(i).len() && s.take(i)[k] == s[i];
            assert(s[k] == s[i]);
        }
    }
    assert forall|q: Position| b.contains(q) <==> (a.contains(q) || q == s[i]) by {
        assert(s.take(i + 1) =~= s.take(i).push(s[i]));
        push_contains(s.take(i), s[i]);
    }
    if m.contains(s[i]) {
        assert(b.intersect(m) =~= a.intersect(m).insert(s[i]));
    } else {
        assert(b.intersect(m) =~= a.intersect(m));
    }
}

/// The number of mines around `pos`.
pub fn around(pos: &Position, mines: &Vec<Position>, size: u16) -> (total: u16)
    ensures
        total == mines_near(*pos, size, mines@),
        total <= 8,
{
    let points = p_around(pos, size);
    let mut total: u16 = 0;
    let mut i: usize = 0;
    proof {
        row_major_no_duplicates(points@);
        assert(points@.take(0).to_set().intersect(mines@.to_set()) =~= Set::empty());
    }
    while i < points.len()
        invariant
            i <= points.len() <= 8,
            points@.no_duplicates(),
            total <= i,
            total == points@.take(i as int).to_set().intersect(mines@.to_set()).len(),
        decreases points.len() - i,
    {
        proof {
            lemma_count_step(points@, i as int, mines@.to_set());
        }
        if holds(mines, &points[i]) {
            total += 1;
        }
        i += 1;
    }
    proof {
        assert(points@.take(points.len() as int) =~= points@);
        assert(points@.to_set() =~= neighbor_set(*pos, size));
    }
    total
}

/// The cells around `pos` that hold no mine, in reading order.
pub fn adjecent_empty(pos: &Position, mines: &Vec<Position>, size: u16) -> (free: Vec<Position>)
    ensures
        forall|q: Position|
            #![trigger free@.contains(q)]
            #![trigger is_neighbor(*pos, q, size)]
            free@.contains(q) <==> (is_neighbor(*pos, q, size) && !mines@.contains(q)),
        row_major(free@),
        free.len() <= 8,
{
    let points = p_around(pos, size);
    let mut free: Vec<Position> = Vec::new();
    let mut i: usize = 0;
    while i < points.len()
        invariant
            i <= points.len() <= 8,
            free.len() <= i,
            row_major(points@),
            row_major(free@),
            forall|q: Position|
                #![trigger points@.contains(q)]
                #![trigger is_neighbor(*pos, q, size)]
                points@.contains(q) <==> is_neighbor(*pos, q, size),
            forall|q: Position| #[trigger]
                free@.contains(q) ==> !mines@.contains(q) && exists|k: int|
                    0 <= k < i && points@[k] == q,
            forall|k: int|
                0 <= k < i && !mines@.contains(#[trigger] points@[k]) ==> free@.contains(
                    points@[k],
                ),
        decreases points.len() - i,
    {
        let next = points[i];
        let ghost earlier = free@;
        if !holds(mines, &next) {
            proof {
                push_contains(earlier, next);
                assert forall|j: int| 0 <= j < earlier.len() implies earlier[j].before(next) by {
                    assert(earlier.contains(earlier[j]));
                    let k = choose|k: int| 0 <= k < i && points@[k] == earlier[j];
                    assert(points@[k].before(points@[i as int]));
                }
            }
            free.push(next);
            assert(free@ == earlier.push(next));
        }
        proof {
            assert forall|q: Position| #[trigger] free@.contains(q) implies !mines@.contains(q)
                && exists|k: int| 0 <= k < i + 1 && points@[k] == q by {
                if q == next && !mines@.contains(next) {
                    assert(points@[i as int] == q);
                } else {
                    assert(earlier.contains(q));
                    let k = choose|k: int| 0 <= k < i && points@[k] == q;
                    assert(0 <= k < i + 1 && points@[k] == q);
                }
            }
            assert forall|k: int|
                0 <= k < i + 1 && !mines@.contains(#[trigger] points@[k]) implies free@.contains(
                points@[k],
            ) by {
                if k < i {
                    assert(earlier.contains(points@[k]));
                }
            }
        }
        i += 1;
    }
    proof {
        assert forall|q: Position|
            #![trigger free@.contains(q)]
            #![trigger is_neighbor(*pos, q, size)]
            free@.contains(q) <==> (is_neighbor(*pos, q, size) && !mines@.contains(q)) by {
            if free@.contains(q) {
                let k = choose|k: int| 0 <= k < i && points@[k] == q;
                assert(points@.contains(q));
            }
            if is_neighbor(*pos, q, size) && !mines@.contains(q) {
                assert(points@.contains(q));
                let k = choose|k: int| 0 <= k < points@.len() && points@[k] == q;
                assert(!mines@.contains(points@[k]));
            }
        }
    }
    free
}

/// The board that `mines` describes, with no cell revealed or flagged.
pub fn lay_out(size: u16, mines: &Vec<Position>) -> (field: FieldMap)
    ensures
        laid_out(&field, size, mines@),
        untouched(&field, size),
{
    let mut field: FieldMap = Vec::new();
    let mut r: u16 = 0;
    while r < size
        invariant
            r <= size,
            field.len() == r,
            forall|x: int| 0 <= x < r ==> (#[trigger] field[x]).len() == size,
            forall|p: Position|
                p.0 < r && p.1 < size ==> {
                    &&& cell_matches(#[trigger] cell(&field, p), p, size, mines@)
                    &&& !cell(&field, p).is_clicked
                    &&& !cell(&field, p).is_flagged
                },
        decreases size - r,
    {
        let mut row: Vec<Field> = Vec::new();
        let mut c: u16 = 0;
        while c < size
            invariant
                c <= size,
                r < size,
                row.len() == c,
                forall|y: int|
                    0 <= y < c ==> {
                        &&& cell_matches(#[trigger] row[y], Position(r, y as u16), size, mines@)
                        &&& !row[y].is_clicked
                        &&& !row[y].is_flagged
                    },
            decreases size - c,
        {
            let pos = Position(r, c);
            let is_mine = holds(mines, &pos);
            let cell = Field {
                is_mine,
                is_clicked: false,
                is_flagged: false,
                mines_around: around(&pos, mines, size),
                adjecent_empty: adjecent_empty(&pos, mines, size),
            };
            row.push(cell);
            c += 1;
        }
        let ghost earlier = field;
        field.push(row);
        proof {
            assert forall|p: Position| p.0 < r + 1 && p.1 < size implies {
                &&& cell_matches(#[trigger] cell(&field, p), p, size, mines@)
                &&& !cell(&field, p).is_clicked
                &&& !cell(&field, p).is_flagged
            } by {
                if p.0 < r {
                    assert(field[p.0 as int] == earlier[p.0 as int]);
                    assert(cell(&field, p) == cell(&earlier, p));
                } else {
                    assert(field[p.0 as int] == row);
                    assert(p == Position(r, p.1 as int as u16));
                    assert(cell(&field, p) == row[p.1 as int]);
                }
            }
        }
        r += 1;
    }
    field
}

} // verus!
