//! One cell of the board, and what a front end needs to draw it.

use crate::position::Position;
use vstd::prelude::*;

verus! {

/// The state of one cell.
#[derive(Debug, Clone, Hash, PartialEq, Eq)]
pub struct Field {
    pub is_mine: bool,
    pub is_clicked: bool,
    pub is_flagged: bool,
    /// How many of the surrounding cells hold a mine.
    pub mines_around: u16,
    /// The surrounding cells that hold no mine, in reading order.
    pub adjecent_empty: Vec<Position>,
}

/// What a front end draws for one cell.
#[derive(Debug, Copy, Clone, PartialEq, Eq, Structural)]
pub struct CellDisplay {
    pub revealed: bool,
    pub is_mine: bool,
    pub number: u16,
    pub is_flagged: bool,
}

/// What a cell shows once the game is over, beyond what was revealed.
#[derive(Debug, Copy, Clone, PartialEq, Eq, Structural)]
pub enum EndMark {
    /// Nothing more than before.
    Unmarked,
    /// A flag on a cell without a mine.
    WrongFlag,
    /// A mine that was neither flagged nor revealed.
    Mine,
    /// The mine whose reveal lost the game.
    ClickedMine,
}

/// The style class for a revealed cell with `n` mines around it.
pub open spec fn class_name_for(n: u16) -> Seq<char> {
    if n == 1 {
        "btn_nearby_one"@
    } else if n == 2 {
        "btn_nearby_two"@
    } else {
        "btn_nearby_multiple"@
    }
}

impl Field {
    /// Whether the cell is neither a mine nor next to one: revealing it floods.
    pub open spec fn is_blank(&self) -> bool {
        !self.is_mine && self.mines_around == 0
    }

    /// The display of this cell.
    pub open spec fn shown(&self) -> CellDisplay {
        CellDisplay {
            revealed: self.is_clicked,
            is_mine: self.is_mine,
            number: self.mines_around,
            is_flagged: self.is_flagged,
        }
    }

    /// The style class that tells one, two and more neighbouring mines apart.
    pub fn mines_around_class_name(&self) -> (name: String)
        ensures
            name@ == class_name_for(self.mines_around),
    {
        match self.mines_around {
            1 => "btn_nearby_one".to_string(),
            2 => "btn_nearby_two".to_string(),
            _ => "btn_nearby_multiple".to_string(),
        }
    }

    /// The mark of this cell at the end of a game.
    pub open spec fn marked_as(&self) -> EndMark {
        if !self.is_mine && self.is_flagged {
            EndMark::WrongFlag
        } else if self.is_mine && !self.is_flagged {
            if self.is_clicked {
                EndMark::ClickedMine
            } else {
                EndMark::Mine
            }
        } else {
            EndMark::Unmarked
        }
    }

    /// What the cell shows once the game is over: a wrong flag, or a mine
    /// that no flag covers. A flagged mine and a cell without mine or flag
    /// stay as they are.
    pub fn end_mark(&self) -> (mark: EndMark)
        ensures
            mark == self.marked_as(),
    {
        if !self.is_mine && self.is_flagged {
            EndMark::WrongFlag
        } else if self.is_mine && !self.is_flagged {
            if self.is_clicked {
                EndMark::ClickedMine
            } else {
                EndMark::Mine
            }
        } else {
            EndMark::Unmarked
        }
    }

    /// What a front end draws for this cell.
    pub fn display(&self) -> (d: CellDisplay)
        ensures
            d == self.shown(),
    {
        CellDisplay {
            revealed: self.is_clicked,
            is_mine: self.is_mine,
            number: self.mines_around,
            is_flagged: self.is_flagged,
        }
    }
}

} // verus!
