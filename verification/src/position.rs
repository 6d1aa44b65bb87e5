//! Board coordinates and their order.

use std::cmp::Ordering;
use vstd::prelude::*;
use vstd::std_specs::cmp::PartialOrdSpecImpl;

verus! {

/// A cell coordinate: the row index first, the column index second.
#[derive(Debug, Copy, Clone, Hash, PartialEq, Eq, Structural)]
pub struct Position(pub u16, pub u16);

impl Position {
    /// The order of two positions: by column, and by row within a column.
    pub open spec fn order(self, other: Position) -> Ordering {
        if self.1 < other.1 {
            Ordering::Less
        } else if self.1 > other.1 {
            Ordering::Greater
        } else if self.0 < other.0 {
            Ordering::Less
        } else if self.0 > other.0 {
            Ordering::Greater
        } else {
            Ordering::Equal
        }
    }

    /// Whether the position lies on a square board with `size` rows and columns.
    pub open spec fn in_bounds(self, size: u16) -> bool {
        self.0 < size && self.1 < size
    }

    /// Whether `other` is one of the eight cells that surround this one.
    pub open spec fn adjacent(self, other: Position) -> bool {
        &&& self != other
        &&& self.0 - other.0 <= 1
        &&& other.0 - self.0 <= 1
        &&& self.1 - other.1 <= 1
        &&& other.1 - self.1 <= 1
    }

    /// Whether this position comes before `other` when the board is read row by row.
    pub open spec fn before(self, other: Position) -> bool {
        self.0 < other.0 || (self.0 == other.0 && self.1 < other.1)
    }

    /// Compares two positions by column, then by row.
    pub fn cmp(&self, other: &Self) -> (o: Ordering)
        ensures
            o == self.order(*other),
    {
        if self.1 < other.1 {
            Ordering::Less
        } else if self.1 > other.1 {
            Ordering::Greater
        } else if self.0 < other.0 {
            Ordering::Less
        } else if self.0 > other.0 {
            Ordering::Greater
        } else {
            Ordering::Equal
        }
    }

    /// Whether the position lies on a board with `size` rows and columns.
    pub fn is_within(&self, size: u16) -> (b: bool)
        ensures
            b == self.in_bounds(size),
    {
        self.0 < size && self.1 < size
    }
}

impl PartialOrd for Position {
    fn partial_cmp(&self, other: &Self) -> (r: Option<Ordering>) {
        Some(self.cmp(other))
    }
}

impl PartialOrdSpecImpl for Position {
    open spec fn obeys_partial_cmp_spec() -> bool {
        true
    }

    open spec fn partial_cmp_spec(&self, other: &Self) -> Option<Ordering> {
        Some(self.order(*other))
    }
}

/// Two positions compare as equal exactly when they are the same position.
pub proof fn order_equal_iff_same(a: Position, b: Position)
    ensures
        a.order(b) == Ordering::Equal <==> a == b,
{
}

/// Swapping the operands swaps `Less` and `Greater`.
pub proof fn order_antisymmetric(a: Position, b: Position)
    ensures
        a.order(b) == Ordering::Less <==> b.order(a) == Ordering::Greater,
{
}

/// The order is transitive.
pub proof fn order_transitive(a: Position, b: Position, c: Position)
    requires
        a.order(b) == Ordering::Less,
        b.order(c) == Ordering::Less,
    ensures
        a.order(c) == Ordering::Less,
{
}

/// Adjacency is symmetric.
pub proof fn adjacent_symmetric(a: Position, b: Position)
    ensures
        a.adjacent(b) == b.adjacent(a),
{
}

} // verus!
