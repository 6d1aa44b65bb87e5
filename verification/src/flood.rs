//! The flood engine: which cells open by themselves when a blank cell is
//! revealed.

use crate::board::{cell, is_square, laid_out, FieldMap};
use crate::grid::{is_neighbor, lemma_cells_bound, push_contains};
use crate::position::Position;
use vstd::prelude::*;

verus! {

/// Whether `p` is a cell of the board that is neither a mine nor next to one.
pub open spec fn blank_at(field: &FieldMap, size: u16, p: Position) -> bool {
    p.in_bounds(size) && cell(field, p).is_blank()
}

/// Whether `q` is a cell of the board next to `p` that holds no mine.
pub open spec fn free_neighbor(field: &FieldMap, size: u16, p: Position, q: Position) -> bool {
    is_neighbor(p, q, size) && !cell(field, q).is_mine
}

/// Whether every cell of the board lists exactly its mine-free neighbours,
/// each of them once.
pub open spec fn adjacency_ok(field: &FieldMap, size: u16) -> bool {
    &&& forall|p: Position|
        p.in_bounds(size) ==> (#[trigger] cell(field, p)).adjecent_empty@.no_duplicates()
    &&& forall|p: Position, q: Position|
        #![trigger cell(field, p).adjecent_empty@.contains(q)]
        #![trigger free_neighbor(field, size, p, q)]
        p.in_bounds(size) ==> (cell(field, p).adjecent_empty@.contains(q) <==> free_neighbor(
            field,
            size,
            p,
            q,
        ))
}

/// Whether `z` is a blank cell that a chain of at most `steps` moves joins to
/// `seed`, each move going from one blank cell to a blank cell next to it.
pub open spec fn linked_within(
    field: &FieldMap,
    size: u16,
    seed: Position,
    z: Position,
    steps: nat,
) -> bool
    decreases steps,
{
    if steps == 0 {
        z == seed && blank_at(field, size, seed)
    } else {
        linked_within(field, size, seed, z, (steps - 1) as nat) || (blank_at(field, size, z)
            && exists|y: Position|
            #[trigger] y.adjacent(z) && linked_within(field, size, seed, y, (steps - 1) as nat))
    }
}

/// Whether `z` belongs to the connected area of blank cells around `seed`.
pub open spec fn linked(field: &FieldMap, size: u16, seed: Position, z: Position) -> bool {
    exists|steps: nat| linked_within(field, size, seed, z, steps)
}

/// Whether revealing the blank cell `seed` also reveals `p`: `p` is another
/// mine-free cell of the board that touches the blank area around `seed`.
pub open spec fn floods(field: &FieldMap, size: u16, seed: Position, p: Position) -> bool {
    &&& p != seed
    &&& p.in_bounds(size)
    &&& !cell(field, p).is_mine
    &&& exists|z: Position| z.adjacent(p) && #[trigger] linked(field, size, seed, z)
}

/// The cells that revealing `seed` also reveals.
pub open spec fn flood_region(field: &FieldMap, size: u16, seed: Position) -> Set<Position> {
    Set::new(|p: Position| floods(field, size, seed, p))
}

/// A board laid out from mine positions lists the mine-free neighbours of each cell.
pub proof fn laid_out_adjacency(field: &FieldMap, size: u16, mines: Seq<Position>)
    requires
        laid_out(field, size, mines),
    ensures
        adjacency_ok(field, size),
{
    assert forall|p: Position| p.in_bounds(size) implies (#[trigger] cell(
        field,
        p,
    )).adjecent_empty@.no_duplicates() by {
        crate::grid::row_major_no_duplicates(cell(field, p).adjecent_empty@);
    }
    assert forall|p: Position, q: Position|
        #![trigger cell(field, p).adjecent_empty@.contains(q)]
        #![trigger free_neighbor(field, size, p, q)]
        p.in_bounds(size) implies (cell(field, p).adjecent_empty@.contains(q) <==> free_neighbor(
        field,
        size,
        p,
        q,
    )) by {
        let f = cell(field, p);
        assert(f.adjecent_empty@.contains(q) <==> (is_neighbor(p, q, size) && !mines.contains(q)));
        if is_neighbor(p, q, size) {
            assert(cell(field, q).is_mine == mines.contains(q));
        }
    }
}

/// A linked cell is blank.
pub proof fn linked_is_blank(field: &FieldMap, size: u16, seed: Position, z: Position, steps: nat)
    requires
        linked_within(field, size, seed, z, steps),
    ensures
        blank_at(field, size, z),
    decreases steps,
{
    if steps > 0 && linked_within(field, size, seed, z, (steps - 1) as nat) {
        linked_is_blank(field, size, seed, z, (steps - 1) as nat);
    }
}

/// A blank cell next to a linked cell is linked.
pub proof fn linked_extends(field: &FieldMap, size: u16, seed: Position, y: Position, z: Position)
    requires
        linked(field, size, seed, y),
        y.adjacent(z),
        blank_at(field, size, z),
    ensures
        linked(field, size, seed, z),
{
    let n = choose|n: nat| linked_within(field, size, seed, y, n);
    let m: nat = n + 1;
    assert(linked_within(field, size, seed, y, (m - 1) as nat));
    assert(linked_within(field, size, seed, z, m));
}

/// A set of cells that holds `seed` and, with each blank cell, its mine-free
/// neighbours on the board holds every cell linked to `seed`.
pub proof fn linked_in_closed_set(
    field: &FieldMap,
    size: u16,
    seed: Position,
    v: Set<Position>,
    z: Position,
    steps: nat,
)
    requires
        v.contains(seed),
        forall|a: Position, b: Position|
            v.contains(a) && blank_at(field, size, a) && #[trigger] free_neighbor(
                field,
                size,
                a,
                b,
            ) ==> v.contains(b),
        linked_within(field, size, seed, z, steps),
    ensures
        v.contains(z),
    decreases steps,
{
    if steps == 0 {
    } else if linked_within(field, size, seed, z, (steps - 1) as nat) {
        linked_in_closed_set(field, size, seed, v, z, (steps - 1) as nat);
    } else {
        let y = choose|y: Position|
            #[trigger] y.adjacent(z) && linked_within(field, size, seed, y, (steps - 1) as nat);
        linked_in_closed_set(field, size, seed, v, y, (steps - 1) as nat);
        linked_is_blank(field, size, seed, y, (steps - 1) as nat);
        assert(free_neighbor(field, size, y, z));
    }
}

/// Whether the mark of `p` is set.
pub open spec fn marked(seen: &Vec<Vec<bool>>, p: Position) -> bool {
    seen[p.0 as int][p.1 as int]
}

/// Whether `seen` has `size` rows of `size` marks.
pub open spec fn marks_square(seen: &Vec<Vec<bool>>, size: u16) -> bool {
    &&& seen.len() == size
    &&& forall|r: int| 0 <= r < size ==> (#[trigger] seen[r]).len() == size
}

/// A grid of `size` rows of `size` marks, none of them set.
pub fn no_marks(size: u16) -> (seen: Vec<Vec<bool>>)
    ensures
        marks_square(&seen, size),
        forall|p: Position| p.in_bounds(size) ==> !#[trigger] marked(&seen, p),
{
    let mut seen: Vec<Vec<bool>> = Vec::new();
    let mut r: u16 = 0;
    while r < size
        invariant
            r <= size,
            seen.len() == r,
            forall|x: int| 0 <= x < r ==> (#[trigger] seen[x]).len() == size,
            forall|x: int, y: int| 0 <= x < r && 0 <= y < size ==> !#[trigger] seen[x][y],
        decreases size - r,
    {
        let mut row: Vec<bool> = Vec::new();
        let mut c: u16 = 0;
        while c < size
            invariant
                c <= size,
                row.len() == c,
                forall|y: int| 0 <= y < c ==> !#[trigger] row[y],
            decreases size - c,
        {
            row.push(false);
            c += 1;
        }
        seen.push(row);
        r += 1;
    }
    seen
}

/// Whether every mine-free neighbour of `z` on the board is marked.
pub open spec fn closed(field: &FieldMap, size: u16, seen: &Vec<Vec<bool>>, z: Position) -> bool {
    forall|q: Position| #[trigger] free_neighbor(field, size, z, q) ==> marked(seen, q)
}

/// What holds of the marks, the cells found and the cells still to be
/// expanded while a flood runs.
pub open spec fn flood_state(
    field: &FieldMap,
    size: u16,
    seed: Position,
    seen: &Vec<Vec<bool>>,
    found: Seq<Position>,
    frontier: Seq<Position>,
) -> bool {
    &&& marks_square(seen, size)
    &&& found.no_duplicates()
    &&& forall|i: int| 0 <= i < found.len() ==> floods(field, size, seed, #[trigger] found[i])
    &&& forall|p: Position|
        #![trigger marked(seen, p)]
        #![trigger found.contains(p)]
        p.in_bounds(size) ==> (marked(seen, p) <==> (p == seed || found.contains(p)))
    &&& forall|i: int| 0 <= i < frontier.len() ==> linked(field, size, seed, #[trigger] frontier[i])
}

/// Nothing is linked to a seed that is not blank.
pub proof fn linked_needs_blank_seed(
    field: &FieldMap,
    size: u16,
    seed: Position,
    z: Position,
    steps: nat,
)
    requires
        linked_within(field, size, seed, z, steps),
    ensures
        blank_at(field, size, seed),
    decreases steps,
{
    if steps == 0 {
    } else if linked_within(field, size, seed, z, (steps - 1) as nat) {
        linked_needs_blank_seed(field, size, seed, z, (steps - 1) as nat);
    } else {
        let y = choose|y: Position|
            #[trigger] y.adjacent(z) && linked_within(field, size, seed, y, (steps - 1) as nat);
        linked_needs_blank_seed(field, size, seed, y, (steps - 1) as nat);
    }
}

/// Revealing a cell that is not blank floods nothing.
pub proof fn no_flood_without_blank_seed(field: &FieldMap, size: u16, seed: Position)
    requires
        !blank_at(field, size, seed),
    ensures
        forall|p: Position| !#[trigger] floods(field, size, seed, p),
{
    assert forall|p: Position| !#[trigger] floods(field, size, seed, p) by {
        if floods(field, size, seed, p) {
            let z = choose|z: Position| z.adjacent(p) && #[trigger] linked(field, size, seed, z);
            let n = choose|n: nat| linked_within(field, size, seed, z, n);
            linked_needs_blank_seed(field, size, seed, z, n);
        }
    }
}

/// Once no cell is left to expand, every cell that the flood reveals has been found.
proof fn lemma_flood_complete(
    field: &FieldMap,
    size: u16,
    seed: Position,
    seen: &Vec<Vec<bool>>,
    found: Seq<Position>,
    p: Position,
)
    requires
        seed.in_bounds(size),
        flood_state(field, size, seed, seen, found, Seq::empty()),
        forall|z: Position|
            z.in_bounds(size) && #[trigger] marked(seen, z) && blank_at(field, size, z) ==> closed(
                field,
                size,
                seen,
                z,
            ),
        floods(field, size, seed, p),
    ensures
        found.contains(p),
{
    let v = Set::new(|c: Position| c.in_bounds(size) && marked(seen, c));
    let z = choose|z: Position| z.adjacent(p) && #[trigger] linked(field, size, seed, z);
    let n = choose|n: nat| linked_within(field, size, seed, z, n);
    assert(marked(seen, seed));
    assert forall|a: Position, b: Position|
        v.contains(a) && blank_at(field, size, a) && #[trigger] free_neighbor(
            field,
            size,
            a,
            b,
        ) implies v.contains(b) by {
        assert(marked(seen, a));
        assert(closed(field, size, seen, a));
    }
    linked_in_closed_set(field, size, seed, v, z, n);
    linked_is_blank(field, size, seed, z, n);
    assert(marked(seen, z));
    assert(closed(field, size, seen, z));
    assert(free_neighbor(field, size, z, p));
    assert(marked(seen, p));
}

/// The cells that open by themselves when `pos` is revealed: every
/// mine-free cell that touches the connected area of blank cells around
/// `pos`, but for `pos` itself. Nothing, if `pos` is not a blank cell of the
/// board.
pub fn get_tiles_around(pos: &Position, field: &FieldMap, size: u16) -> (around: Vec<Position>)
    requires
        is_square(field, size),
        adjacency_ok(field, size),
    ensures
        around@.no_duplicates(),
        forall|p: Position|
            #![trigger around@.contains(p)]
            #![trigger floods(field, size, *pos, p)]
            around@.contains(p) <==> floods(field, size, *pos, p),
{
    let mut around: Vec<Position> = Vec::new();
    if !pos.is_within(size) {
        proof {
            no_flood_without_blank_seed(field, size, *pos);
        }
        return around;
    }
    let start = &field[pos.0 as usize][pos.1 as usize];
    if start.is_mine || start.mines_around != 0 {
        proof {
            no_flood_without_blank_seed(field, size, *pos);
        }
        return around;
    }
    let mut seen = no_marks(size);
    let ghost unmarked = seen;
    seen[pos.0 as usize][pos.1 as usize] = true;
    let mut frontier: Vec<Position> = Vec::new();
    frontier.push(*pos);
    let ghost cells: int = size as int * size as int;
    proof {
        assert(linked_within(field, size, *pos, *pos, 0));
        assert(linked(field, size, *pos, frontier@[0]));
        assert forall|p: Position|
            #![trigger marked(&seen, p)]
            #![trigger around@.contains(p)]
            p.in_bounds(size) implies (marked(&seen, p) <==> (p == *pos || around@.contains(p))) by {
            if p != *pos {
                assert(!marked(&unmarked, p));
            }
        }
        assert forall|z: Position|
            z.in_bounds(size) && #[trigger] marked(&seen, z) && blank_at(
                field,
                size,
                z,
            ) implies frontier@.contains(z) || closed(field, size, &seen, z) by {
            assert(z == *pos);
            assert(frontier@[0] == z);
        }
    }
    while frontier.len() > 0
        invariant
            is_square(field, size),
            adjacency_ok(field, size),
            pos.in_bounds(size),
            cells == size * size,
            flood_state(field, size, *pos, &seen, around@, frontier@),
            forall|z: Position|
                z.in_bounds(size) && #[trigger] marked(&seen, z) && blank_at(field, size, z)
                    ==> frontier@.contains(z) || closed(field, size, &seen, z),
        decreases 2 * (cells - around.len()) + frontier.len(),
    {
        let ghost measure = 2 * (cells - around.len()) + frontier.len();
        let ghost waiting = frontier@;
        let z = frontier.pop().unwrap();
        proof {
            assert(z == waiting[waiting.len() - 1]);
            assert(linked(field, size, *pos, z));
            let n = choose|n: nat| linked_within(field, size, *pos, z, n);
            linked_is_blank(field, size, *pos, z, n);
            assert forall|zz: Position|
                zz.in_bounds(size) && #[trigger] marked(&seen, zz) && blank_at(
                    field,
                    size,
                    zz,
                ) implies frontier@.contains(zz) || zz == z || closed(field, size, &seen, zz) by {
                if waiting.contains(zz) && zz != z {
                    let k = choose|k: int| 0 <= k < waiting.len() && waiting[k] == zz;
                    assert(frontier@[k] == zz);
                }
            }
            assert forall|i: int| 0 <= i < frontier@.len() implies linked(
                field,
                size,
                *pos,
                #[trigger] frontier@[i],
            ) by {
                assert(frontier@[i] == waiting[i]);
            }
        }
        let nbrs = &field[z.0 as usize][z.1 as usize].adjecent_empty;
        let mut i: usize = 0;
        while i < nbrs.len()
            invariant
                is_square(field, size),
                adjacency_ok(field, size),
                pos.in_bounds(size),
                cells == size * size,
                z.in_bounds(size),
                blank_at(field, size, z),
                linked(field, size, *pos, z),
                nbrs@ == cell(field, z).adjecent_empty@,
                i <= nbrs.len(),
                flood_state(field, size, *pos, &seen, around@, frontier@),
                forall|zz: Position|
                    zz.in_bounds(size) && #[trigger] marked(&seen, zz) && blank_at(field, size, zz)
                        ==> frontier@.contains(zz) || zz == z || closed(field, size, &seen, zz),
                forall|k: int| 0 <= k < i ==> marked(&seen, #[trigger] nbrs@[k]),
                2 * (cells - around.len()) + frontier.len() < measure,
            decreases nbrs.len() - i,
        {
            let q = nbrs[i];
            proof {
                assert(nbrs@.contains(q));
                assert(cell(field, z).adjecent_empty@.contains(q));
                assert(free_neighbor(field, size, z, q));
            }
            if !seen[q.0 as usize][q.1 as usize] {
                let ghost before = seen;
                let ghost found = around@;
                let ghost waiting = frontier@;
                seen[q.0 as usize][q.1 as usize] = true;
                around.push(q);
                let target = &field[q.0 as usize][q.1 as usize];
                if !target.is_mine && target.mines_around == 0 {
                    frontier.push(q);
                    proof {
                        linked_extends(field, size, *pos, z, q);
                    }
                }
                proof {
                    push_contains(found, q);
                    push_contains(waiting, q);
                    assert(marked(&before, *pos));
                    assert(!found.contains(q));
                    assert(floods(field, size, *pos, q));
                    assert forall|p: Position| p.in_bounds(size) implies (#[trigger] marked(
                        &seen,
                        p,
                    ) <==> (marked(&before, p) || p == q)) by {
                        if p.0 == q.0 && p.1 == q.1 {
                            assert(p == q);
                        }
                    }
                    assert forall|zz: Position|
                        zz.in_bounds(size) && #[trigger] marked(&seen, zz) && blank_at(
                            field,
                            size,
                            zz,
                        ) implies frontier@.contains(zz) || zz == z || closed(
                        field,
                        size,
                        &seen,
                        zz,
                    ) by {
                        if zz != q {
                            assert(marked(&before, zz));
                            if waiting.contains(zz) {
                            } else if zz != z {
                                assert(closed(field, size, &before, zz));
                                assert forall|c: Position| #[trigger]
                                    free_neighbor(field, size, zz, c) implies marked(&seen, c) by {
                                    assert(marked(&before, c));
                                }
                            }
                        }
                    }
                    assert forall|k: int| 0 <= k < i + 1 implies marked(
                        &seen,
                        #[trigger] nbrs@[k],
                    ) by {
                        if k < i {
                            assert(marked(&before, nbrs@[k]));
                            assert(free_neighbor(field, size, z, nbrs@[k])) by {
                                assert(nbrs@.contains(nbrs@[k]));
                            }
                        }
                    }
                    assert forall|j: int| 0 <= j < around@.len() implies floods(
                        field,
                        size,
                        *pos,
                        #[trigger] around@[j],
                    ) by {
                        if j < found.len() {
                            assert(around@[j] == found[j]);
                        }
                    }
                    assert forall|j: int| 0 <= j < frontier@.len() implies linked(
                        field,
                        size,
                        *pos,
                        #[trigger] frontier@[j],
                    ) by {
                        if j < waiting.len() {
                            assert(frontier@[j] == waiting[j]);
                        }
                    }
                    assert(around@.no_duplicates()) by {
                        assert forall|a: int, b: int|
                            0 <= a < around@.len() && 0 <= b < around@.len() && a
                                != b implies around@[a] != around@[b] by {
                            if a < found.len() {
                                assert(found.contains(found[a]));
                            }
                            if b < found.len() {
                                assert(found.contains(found[b]));
                            }
                        }
                    }
                }
            }
            i += 1;
        }
        proof {
            assert(closed(field, size, &seen, z)) by {
                assert forall|c: Position| #[trigger]
                    free_neighbor(field, size, z, c) implies marked(&seen, c) by {
                    assert(nbrs@.contains(c));
                    let k = choose|k: int| 0 <= k < nbrs@.len() && nbrs@[k] == c;
                    assert(marked(&seen, nbrs@[k]));
                }
            }
            assert forall|j: int| 0 <= j < around@.len() implies (#[trigger] around@[j]).in_bounds(
                size,
            ) by {
                assert(floods(field, size, *pos, around@[j]));
            }
            lemma_cells_bound(around@, size);
        }
    }
    proof {
        assert(frontier@ =~= Seq::empty());
        assert forall|p: Position|
            #![trigger around@.contains(p)]
            #![trigger floods(field, size, *pos, p)]
            around@.contains(p) <==> floods(field, size, *pos, p) by {
            if around@.contains(p) {
                let j = choose|j: int| 0 <= j < around@.len() && around@[j] == p;
                assert(floods(field, size, *pos, around@[j]));
            }
            if floods(field, size, *pos, p) {
                lemma_flood_complete(field, size, *pos, &seen, around@, p);
            }
        }
    }
    around
}

} // verus!
