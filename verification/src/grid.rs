//! The cells of a square board and the neighbourhood of a cell.

use crate::position::Position;
use vstd::prelude::*;

verus! {

/// The positions of a board with `size` rows and columns.
pub open spec fn all_cells(size: u16) -> Set<Position> {
    Set::new(|p: Position| p.in_bounds(size))
}

/// The cells of the board that surround `p`: up to eight, fewer at an edge.
pub open spec fn neighbor_set(p: Position, size: u16) -> Set<Position> {
    Set::new(|q: Position| is_neighbor(p, q, size))
}

/// Whether `q` is a cell of the board that surrounds `p`.
pub open spec fn is_neighbor(p: Position, q: Position, size: u16) -> bool {
    q.in_bounds(size) && p.adjacent(q)
}

/// Whether the positions of `s` stand in the order in which a board is read:
/// row by row, and left to right within a row.
pub open spec fn row_major(s: Seq<Position>) -> bool {
    forall|i: int, j: int| 0 <= i < j < s.len() ==> s[i].before(s[j])
}

/// A sequence in reading order holds no position twice.
pub proof fn row_major_no_duplicates(s: Seq<Position>)
    requires
        row_major(s),
    ensures
        s.no_duplicates(),
{
    assert forall|i: int, j: int| 0 <= i < s.len() && 0 <= j < s.len() && i != j implies s[i]
        != s[j] by {
        if i < j {
            assert(s[i].before(s[j]));
        } else {
            assert(s[j].before(s[i]));
        }
    }
}

/// A board of `size` rows and columns has `size * size` cells.
pub proof fn lemma_cell_count(size: u16)
    ensures
        all_cells(size).finite(),
        all_cells(size).len() == size * size,
{
    let n = size as int;
    let total = n * n;
    assert(total >= 0) by (nonlinear_arith)
        requires
            total == n * n,
    ;
    let indices = vstd::set_lib::set_int_range(0, total);
    let place = |i: int| Position((i / n) as u16, (i % n) as u16);
    vstd::set_lib::lemma_int_range(0, total);
    if n == 0 {
        assert(all_cells(size) =~= Set::empty());
    } else {
        assert forall|i: int| 0 <= i < total implies 0 <= #[trigger] (i / n) < n && 0 <= i % n < n by {
            vstd::arithmetic::div_mod::lemma_fundamental_div_mod(i, n);
            vstd::arithmetic::div_mod::lemma_mod_bound(i, n);
            assert(0 <= i / n < n) by (nonlinear_arith)
                requires
                    0 <= i < n * n,
                    n > 0,
                    i == n * (i / n) + i % n,
                    0 <= i % n < n,
            ;
        }
        assert forall|i: int, j: int|
            indices.contains(i) && indices.contains(j) && #[trigger] place(i) == #[trigger] place(
                j,
            ) implies i == j by {
            vstd::arithmetic::div_mod::lemma_fundamental_div_mod(i, n);
            vstd::arithmetic::div_mod::lemma_fundamental_div_mod(j, n);
            assert(0 <= i / n < n && 0 <= i % n < n);
            assert(0 <= j / n < n && 0 <= j % n < n);
            assert((i / n) as u16 == (j / n) as u16);
            assert((i % n) as u16 == (j % n) as u16);
        }
        assert(vstd::relations::injective_on(place, indices));
        assert forall|p: Position| all_cells(size).contains(p) implies indices.map(place).contains(
            p,
        ) by {
            let i = p.0 * n + p.1;
            vstd::arithmetic::div_mod::lemma_fundamental_div_mod_converse(
                i,
                n,
                p.0 as int,
                p.1 as int,
            );
            assert(0 <= i < total) by (nonlinear_arith)
                requires
                    i == p.0 * n + p.1,
                    0 <= p.0 < n,
                    0 <= p.1 < n,
                    total == n * n,
            ;
            assert(indices.contains(i));
            assert(place(i) == p);
        }
        assert forall|p: Position| indices.map(place).contains(p) implies all_cells(size).contains(
            p,
        ) by {
            let i = choose|i: int| indices.contains(i) && place(i) == p;
            assert(0 <= i / n < n && 0 <= i % n < n);
        }
        assert(indices.map(place) =~= all_cells(size));
        vstd::set_lib::lemma_map_size(indices, all_cells(size), place);
    }
}

/// A sequence of cells of the board that holds none twice is no longer than
/// the board has cells.
pub proof fn lemma_cells_bound(s: Seq<Position>, size: u16)
    requires
        s.no_duplicates(),
        forall|i: int| 0 <= i < s.len() ==> (#[trigger] s[i]).in_bounds(size),
    ensures
        s.len() <= size * size,
{
    lemma_cell_count(size);
    s.unique_seq_to_set();
    assert(s.to_set().subset_of(all_cells(size))) by {
        assert forall|p: Position| s.to_set().contains(p) implies all_cells(size).contains(p) by {
            let i = choose|i: int| 0 <= i < s.len() && s[i] == p;
            assert(s[i].in_bounds(size));
        }
    }
    vstd::set_lib::lemma_len_subset(s.to_set(), all_cells(size));
}

/// A sequence that holds every cell of the board is at least as long as the
/// board has cells.
pub proof fn lemma_cells_covered(s: Seq<Position>, size: u16)
    requires
        forall|p: Position| p.in_bounds(size) ==> s.contains(p),
    ensures
        s.len() >= size * size,
{
    lemma_cell_count(size);
    vstd::seq_lib::seq_to_set_is_finite(s);
    s.lemma_cardinality_of_set();
    assert(all_cells(size).subset_of(s.to_set()));
    vstd::set_lib::lemma_len_subset(all_cells(size), s.to_set());
}

/// What a sequence contains once one more item is pushed.
pub proof fn push_contains<A>(s: Seq<A>, a: A)
    ensures
        forall|b: A| #[trigger] s.push(a).contains(b) <==> (s.contains(b) || b == a),
{
    assert forall|b: A| #[trigger] s.push(a).contains(b) <==> (s.contains(b) || b == a) by {
        if s.push(a).contains(b) {
            let i = choose|i: int| 0 <= i < s.push(a).len() && s.push(a)[i] == b;
            if i < s.len() {
                assert(s[i] == b);
            }
        }
        if s.contains(b) {
            let i = choose|i: int| 0 <= i < s.len() && s[i] == b;
            assert(s.push(a)[i] == b);
        }
        if b == a {
            assert(s.push(a)[s.len() as int] == b);
        }
    }
}

/// The neighbours of `pos` on a board of `size` rows and columns, in reading
/// order. Cells beyond an edge are left out; nothing wraps around.
pub fn p_around(pos: &Position, size: u16) -> (points: Vec<Position>)
    ensures
        forall|q: Position|
            #![trigger points@.contains(q)]
            #![trigger is_neighbor(*pos, q, size)]
            points@.contains(q) <==> is_neighbor(*pos, q, size),
        row_major(points@),
        points.len() <= 8,
{
    let mut points: Vec<Position> = Vec::new();
    if size == 0 {
        return points;
    }
    let row_lo: u16 = if pos.0 > 0 { pos.0 - 1 } else { 0 };
    let row_hi: u16 = if pos.0 < size - 1 { pos.0 + 1 } else { size - 1 };
    let col_lo: u16 = if pos.1 > 0 { pos.1 - 1 } else { 0 };
    let col_hi: u16 = if pos.1 < size - 1 { pos.1 + 1 } else { size - 1 };
    if row_lo > row_hi || col_lo > col_hi {
        return points;
    }
    let mut row: u16 = row_lo;
    loop
        invariant_except_break
            row_lo <= row <= row_hi,
            points.len() + (if pos.0 < row && col_lo <= pos.1 <= col_hi { 1int } else { 0 }) <= 3 * (row
                - row_lo),
            forall|q: Position| #[trigger]
                points@.contains(q) ==> is_neighbor(*pos, q, size) && q.0 < row,
            forall|q: Position| #[trigger]
                is_neighbor(*pos, q, size) && q.0 < row ==> points@.contains(q),
        invariant
            size > 0,
            col_lo <= col_hi,
            row_lo == if pos.0 > 0 { pos.0 - 1 } else { 0 },
            col_lo == if pos.1 > 0 { pos.1 - 1 } else { 0 },
            row_hi == if pos.0 < size - 1 { pos.0 + 1 } else { size - 1 },
            col_hi == if pos.1 < size - 1 { pos.1 + 1 } else { size - 1 },
            row_major(points@),
        ensures
            forall|q: Position| #[trigger] points@.contains(q) ==> is_neighbor(*pos, q, size),
            forall|q: Position| #[trigger] is_neighbor(*pos, q, size) ==> points@.contains(q),
            points.len() <= 8,
        decreases row_hi - row,
    {
        let mut col: u16 = col_lo;
        loop
            invariant_except_break
                col_lo <= col <= col_hi,
                points.len() + (if (pos.0 < row || (pos.0 == row && pos.1 < col)) && col_lo
                    <= pos.1 <= col_hi { 1int } else { 0 }) <= 3 * (row - row_lo) + (col - col_lo),
                forall|q: Position| #[trigger]
                    points@.contains(q) ==> is_neighbor(*pos, q, size) && (q.0 < row || (q.0
                        == row && q.1 < col)),
                forall|q: Position| #[trigger]
                    is_neighbor(*pos, q, size) && (q.0 < row || (q.0 == row && q.1 < col))
                        ==> points@.contains(q),
            invariant
                size > 0,
                row_lo <= row <= row_hi,
                col_lo == if pos.1 > 0 { pos.1 - 1 } else { 0 },
                col_hi == if pos.1 < size - 1 { pos.1 + 1 } else { size - 1 },
                row_lo == if pos.0 > 0 { pos.0 - 1 } else { 0 },
                row_hi == if pos.0 < size - 1 { pos.0 + 1 } else { size - 1 },
                row_major(points@),
            ensures
                forall|q: Position| #[trigger]
                    points@.contains(q) ==> is_neighbor(*pos, q, size) && q.0 <= row,
                forall|q: Position| #[trigger]
                    is_neighbor(*pos, q, size) && q.0 <= row ==> points@.contains(q),
                points.len() + (if pos.0 <= row && col_lo <= pos.1 <= col_hi { 1int } else { 0 })
                    <= 3 * (row - row_lo) + (col_hi - col_lo) + 1,
            decreases col_hi - col,
        {
            let ghost earlier = points@;
            if !(row == pos.0 && col == pos.1) {
                let next = Position(row, col);
                proof {
                    push_contains(earlier, next);
                    assert(is_neighbor(*pos, next, size));
                    assert forall|i: int| 0 <= i < earlier.len() implies earlier[i].before(
                        next,
                    ) by {
                        assert(earlier.contains(earlier[i]));
                    }
                }
                points.push(next);
                assert(points@ == earlier.push(next));
            }
            proof {
                assert forall|q: Position| #[trigger]
                    is_neighbor(*pos, q, size) && (q.0 < row || (q.0 == row && q.1 <= col))
                        implies points@.contains(q) by {
                    if q.0 == row && q.1 == col {
                        assert(q == Position(row, col));
                    } else {
                        assert(earlier.contains(q));
                    }
                }
                assert forall|q: Position| #[trigger] points@.contains(q) implies is_neighbor(
                    *pos,
                    q,
                    size,
                ) && (q.0 < row || (q.0 == row && q.1 <= col)) by {
                    if q != Position(row, col) {
                        assert(earlier.contains(q));
                    }
                }
            }
            if col == col_hi {
                break ;
            }
            col = col + 1;
        }
        if row == row_hi {
            break ;
        }
        row = row + 1;
    }
    points
}

} // verus!
