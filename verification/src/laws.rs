//! What holds of every board and of every game, proved from the contracts of
//! the moves.

use crate::board::{cell, laid_out, mines_near, FieldMap};
use crate::flood::{
    blank_at, flood_region, floods, free_neighbor, linked, linked_extends, linked_is_blank,
    linked_within,
};
use crate::game::{cleared, detonated, flagged_cells, flags_finite, FlagOutcome, Game, RevealOutcome};
use crate::grid::neighbor_set;
use crate::position::Position;
use vstd::prelude::*;

verus! {

/// On every board that is laid out, a cell is a mine exactly when the mines
/// name it, and the number it carries is the number of mines among the
/// cells around it, at most eight.
pub proof fn counts_match_neighbors(
    field: &FieldMap,
    size: u16,
    mines: Seq<Position>,
    p: Position,
)
    requires
        laid_out(field, size, mines),
        p.in_bounds(size),
    ensures
        cell(field, p).is_mine == mines.contains(p),
        cell(field, p).mines_around == neighbor_set(p, size).intersect(mines.to_set()).len(),
{
    assert(crate::board::cell_matches(cell(field, p), p, size, mines));
    assert(mines_near(p, size, mines) == neighbor_set(p, size).intersect(mines.to_set()).len());
}

/// In every game the counter of mines that are left is the number of mines
/// less the number of flagged cells, and never below zero.
pub proof fn counter_is_mines_less_flags(game: Game)
    requires
        game.wf(),
    ensures
        game.mines_left == game.mines.len() - flagged_cells(&game.field, game.size).len(),
        0 <= game.mines_left <= game.mines.len(),
{
    flags_finite(&game.field, game.size);
}

/// A reveal request on a cell that is already revealed changes nothing.
pub proof fn reveal_again_changes_nothing(
    before: Game,
    after: Game,
    position: Position,
    outcome: RevealOutcome,
)
    requires
        before.wf(),
        position.in_bounds(before.size),
        before.cell_at(position).is_clicked,
        before.reveal_step(&after, position, false, outcome),
    ensures
        after == before,
        outcome == RevealOutcome::NoOp,
{
    assert(!before.can_open(position));
    if !before.ended {
        assert(before.active) by {
            if !before.active {
                assert(!cell(&before.field, position).is_clicked);
            }
        }
    }
}

/// Revealing a cell twice does no more than revealing it once.
pub proof fn reveal_is_idempotent(
    before: Game,
    once: Game,
    twice: Game,
    position: Position,
    first: RevealOutcome,
    second: RevealOutcome,
)
    requires
        before.wf(),
        once.wf(),
        position.in_bounds(before.size),
        before.reveal_step(&once, position, false, first),
        once.reveal_step(&twice, position, false, second),
    ensures
        twice == once,
        second == RevealOutcome::NoOp,
{
    if once.ended {
    } else {
        assert(once.cell_at(position).is_clicked) by {
            if before.can_open(position) {
                assert(before.opens(position, position));
                assert(cell(&once.field, position) == crate::game::opened(
                    cell(&before.field, position),
                ));
            } else {
                assert(once.field == before.field);
            }
        }
        reveal_again_changes_nothing(once, twice, position, second);
    }
}

/// A flooded blank cell belongs to the blank area around the seed: the flood
/// does not reach a blank cell across a numbered one.
pub proof fn flooded_blank_is_linked(field: &FieldMap, size: u16, seed: Position, p: Position)
    requires
        floods(field, size, seed, p),
        blank_at(field, size, p),
    ensures
        linked(field, size, seed, p),
{
    let z = choose|z: Position| z.adjacent(p) && #[trigger] linked(field, size, seed, z);
    linked_extends(field, size, seed, z, p);
}

/// A flooded cell is another cell than the seed, lies on the board, holds no
/// mine, and touches a blank cell that belongs to the blank area around
/// the seed.
pub proof fn flooded_touches_blank_area(field: &FieldMap, size: u16, seed: Position, p: Position)
    requires
        floods(field, size, seed, p),
    ensures
        p != seed,
        p.in_bounds(size),
        !cell(field, p).is_mine,
        blank_at(field, size, seed),
        exists|z: Position| #[trigger]
            z.adjacent(p) && blank_at(field, size, z) && linked(field, size, seed, z),
{
    let z = choose|z: Position| z.adjacent(p) && #[trigger] linked(field, size, seed, z);
    let n = choose|n: nat| linked_within(field, size, seed, z, n);
    linked_is_blank(field, size, seed, z, n);
    crate::flood::linked_needs_blank_seed(field, size, seed, z, n);
    assert(z.adjacent(p) && blank_at(field, size, z) && linked(field, size, seed, z));
}

/// The flood goes on from every blank cell that it reaches: the mine-free
/// neighbours of the seed, and of a flooded blank cell, are flooded too.
pub proof fn flood_spreads_from_blank(
    field: &FieldMap,
    size: u16,
    seed: Position,
    p: Position,
    q: Position,
)
    requires
        blank_at(field, size, seed),
        p == seed || floods(field, size, seed, p),
        blank_at(field, size, p),
        free_neighbor(field, size, p, q),
        q != seed,
    ensures
        floods(field, size, seed, q),
{
    if p == seed {
        assert(linked_within(field, size, seed, seed, 0));
        assert(linked(field, size, seed, seed));
    } else {
        flooded_blank_is_linked(field, size, seed, p);
    }
    assert(p.adjacent(q) && linked(field, size, seed, p));
}

/// The flood is the least such set: a set of cells that holds the seed and,
/// with every blank cell of the board that it holds, the mine-free
/// neighbours of that cell holds everything that is flooded.
pub proof fn flood_is_least(field: &FieldMap, size: u16, seed: Position, v: Set<Position>)
    requires
        v.contains(seed),
        forall|a: Position, b: Position|
            v.contains(a) && blank_at(field, size, a) && #[trigger] free_neighbor(
                field,
                size,
                a,
                b,
            ) ==> v.contains(b),
    ensures
        flood_region(field, size, seed).subset_of(v),
{
    assert forall|p: Position| flood_region(field, size, seed).contains(p) implies v.contains(
        p,
    ) by {
        let z = choose|z: Position| z.adjacent(p) && #[trigger] linked(field, size, seed, z);
        let n = choose|n: nat| linked_within(field, size, seed, z, n);
        crate::flood::linked_in_closed_set(field, size, seed, v, z, n);
        linked_is_blank(field, size, seed, z, n);
        assert(free_neighbor(field, size, z, p));
    }
}

/// A board is not won and lost at once.
pub proof fn won_excludes_lost(field: &FieldMap, size: u16)
    ensures
        !(cleared(field, size) && detonated(field, size)),
{
    if cleared(field, size) && detonated(field, size) {
        let p = choose|p: Position|
            p.in_bounds(size) && (#[trigger] cell(field, p)).is_mine && cell(field, p).is_clicked;
        assert(cell(field, p).is_clicked <==> !cell(field, p).is_mine);
    }
}

/// A game is over exactly when its board is won or lost, and then it is
/// one of the two only.
pub proof fn over_means_won_or_lost(game: Game)
    requires
        game.wf(),
    ensures
        game.ended <==> (cleared(&game.field, game.size) || detonated(&game.field, game.size)),
        !(cleared(&game.field, game.size) && detonated(&game.field, game.size)),
        game.ended ==> !game.active,
{
    won_excludes_lost(&game.field, game.size);
}

/// A reveal request reports a loss exactly when it reveals a mine, and a
/// win exactly when it reveals a cell without a mine and leaves no such
/// cell hidden.
pub proof fn reveal_reports_the_end(
    before: Game,
    after: Game,
    position: Position,
    outcome: RevealOutcome,
)
    requires
        before.wf(),
        after.wf(),
        before.reveal_step(&after, position, false, outcome),
    ensures
        outcome == RevealOutcome::Lost <==> (before.can_open(position) && before.cell_at(
            position,
        ).is_mine),
        outcome == RevealOutcome::Won <==> (before.can_open(position) && !before.cell_at(
            position,
        ).is_mine && cleared(&after.field, after.size)),
        outcome == RevealOutcome::Lost ==> after.ended && detonated(&after.field, after.size),
        outcome == RevealOutcome::Won ==> after.ended && !detonated(&after.field, after.size),
{
    won_excludes_lost(&after.field, after.size);
    if before.can_open(position) && before.cell_at(position).is_mine {
        assert(before.opens(position, position));
        assert(cell(&after.field, position) == crate::game::opened(cell(&before.field, position)));
        assert(cell(&after.field, position).is_mine && cell(&after.field, position).is_clicked);
        assert(detonated(&after.field, after.size));
    }
}

/// Setting a flag takes one from the counter, and taking the flag away
/// again gives the counter and the cell back as they were.
pub proof fn flag_then_unflag_restores(
    before: Game,
    flagged: Game,
    restored: Game,
    position: Position,
    first: FlagOutcome,
    second: FlagOutcome,
)
    requires
        before.wf(),
        flagged.wf(),
        before.can_toggle(position),
        !before.cell_at(position).is_flagged,
        before.flag_step(&flagged, position, first),
        flagged.flag_step(&restored, position, second),
    ensures
        flagged.mines_left == before.mines_left - 1,
        first == FlagOutcome::Flagged(flagged.mines_left),
        restored.mines_left == before.mines_left,
        second == FlagOutcome::Unflagged(restored.mines_left),
        restored.cell_at(position) == before.cell_at(position),
{
    assert(flagged.cell_at(position).is_flagged);
    assert(flagged.can_toggle(position));
}

/// A flag request on a revealed cell changes neither the cell nor the counter.
pub proof fn flag_on_revealed_is_no_op(
    before: Game,
    after: Game,
    position: Position,
    outcome: FlagOutcome,
)
    requires
        before.wf(),
        position.in_bounds(before.size),
        before.cell_at(position).is_clicked,
        before.flag_step(&after, position, outcome),
    ensures
        outcome == FlagOutcome::NoOp,
        after.field == before.field,
        after.mines_left == before.mines_left,
{
}

/// No request changes a game that is over.
pub proof fn over_is_final(
    before: Game,
    after: Game,
    position: Position,
    as_flag: bool,
    outcome: RevealOutcome,
)
    requires
        before.ended,
        before.reveal_step(&after, position, as_flag, outcome),
    ensures
        after == before,
        outcome == RevealOutcome::NoOp,
{
}

} // verus!
