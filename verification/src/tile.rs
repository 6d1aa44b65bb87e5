//! A cell as a block of characters on a terminal.

use crate::clock::{decimal, decimal_text};
use crate::field::Field;
use std::cmp::Ordering;
use vstd::prelude::*;
use vstd::std_specs::cmp::{PartialEqSpecImpl, PartialOrdSpecImpl};

verus! {

/// The width of a block, in characters.
pub const BLOCK_WIDTH: u16 = 3;

/// The height of a block, in characters.
pub const BLOCK_HEIGHT: u16 = 3;

/// The gap between two blocks, in characters.
pub const BLOCK_PADDING: u16 = 1;

/// The block of characters that shows one cell. `x` and `y` are the column
/// and row of its top left character, counted from the board's corner.
#[derive(Debug, Copy, Clone, Hash)]
pub struct Tile {
    pub x: u16,
    pub y: u16,
    pub top_left: (u16, u16),
    pub top_right: (u16, u16),
    pub bottom_left: (u16, u16),
    pub bottom_right: (u16, u16),
}

/// The characters that move the cursor of a terminal to column `x` of row
/// `y`: escape, an opening bracket, the row, a semicolon, the column, `H`.
pub open spec fn cursor_sequence(x: u16, y: u16) -> Seq<char> {
    seq!['\x1b', '['] + decimal(y as nat) + seq![';'] + decimal(x as nat) + seq!['H']
}

/// `termion::cursor::Goto`, formatted: the characters that move the cursor to
/// column `x` of row `y`. Both count from one, and termion refuses the pair
/// of two zeros.
#[verifier::external_body]
fn goto_text(x: u16, y: u16) -> (text: String)
    requires
        x != 0 || y != 0,
    ensures
        text@ == cursor_sequence(x, y),
{
    format!("{}", termion::cursor::Goto(x, y))
}

/// What the frame of a block shows.
pub open spec fn wall_glyph(block: &Field, ended: bool) -> Seq<char> {
    if ended || block.is_clicked || block.is_flagged {
        " "@
    } else {
        "▒"@
    }
}

/// What the middle of a block shows.
pub open spec fn face_glyph(block: &Field, ended: bool) -> Seq<char> {
    if ended || block.is_clicked {
        if ended && block.is_flagged && block.is_mine {
            "▓"@
        } else if block.is_mine {
            "🔥"@
        } else if block.mines_around == 0 {
            " "@
        } else {
            decimal(block.mines_around as nat)
        }
    } else {
        "▓"@
    }
}

impl Tile {
    /// Whether the corners are those of the block at `x`, `y`.
    pub open spec fn wf(&self) -> bool {
        &&& self.top_left == (self.x, self.y)
        &&& self.top_right == ((self.x + BLOCK_WIDTH - 1) as u16, self.y)
        &&& self.bottom_left == (self.x, (self.y + BLOCK_HEIGHT - 1) as u16)
        &&& self.bottom_right == (
            (self.x + BLOCK_WIDTH - 1) as u16,
            (self.y + BLOCK_HEIGHT - 1) as u16,
        )
        &&& self.x + BLOCK_WIDTH - 1 <= u16::MAX
        &&& self.y + BLOCK_HEIGHT - 1 <= u16::MAX
    }

    /// The block of the cell in column `x` and row `y` of the board.
    pub fn new(x: &u16, y: &u16) -> (tile: Self)
        requires
            *x * (BLOCK_WIDTH + BLOCK_PADDING) + BLOCK_WIDTH - 1 <= u16::MAX,
            *y * (BLOCK_HEIGHT + BLOCK_PADDING) + BLOCK_HEIGHT - 1 <= u16::MAX,
        ensures
            tile.wf(),
            tile.x == *x * (BLOCK_WIDTH + BLOCK_PADDING),
            tile.y == *y * (BLOCK_HEIGHT + BLOCK_PADDING),
    {
        let x: u16 = *x * (BLOCK_WIDTH + BLOCK_PADDING);
        let y: u16 = *y * (BLOCK_HEIGHT + BLOCK_PADDING);
        Tile {
            x,
            y,
            top_left: (x, y),
            top_right: (x + (BLOCK_WIDTH - 1), y),
            bottom_left: (x, y + (BLOCK_HEIGHT - 1)),
            bottom_right: (x + (BLOCK_WIDTH - 1), y + (BLOCK_HEIGHT - 1)),
        }
    }

    /// The order of two blocks: by row, and by column within a row.
    pub open spec fn order(&self, other: &Tile) -> Ordering {
        if self.y < other.y {
            Ordering::Less
        } else if self.y > other.y {
            Ordering::Greater
        } else if self.x < other.x {
            Ordering::Less
        } else if self.x > other.x {
            Ordering::Greater
        } else {
            Ordering::Equal
        }
    }

    /// Compares two blocks by row, then by column.
    pub fn cmp(&self, other: &Self) -> (o: Ordering)
        ensures
            o == self.order(other),
    {
        if self.y < other.y {
            Ordering::Less
        } else if self.y > other.y {
            Ordering::Greater
        } else if self.x < other.x {
            Ordering::Less
        } else if self.x > other.x {
            Ordering::Greater
        } else {
            Ordering::Equal
        }
    }

    /// The text that draws the block on a terminal whose top left character
    /// for the board is at column `offset_x` of row `offset_y`: the eight
    /// characters of the frame, row by row, then the middle, each after the
    /// move of the cursor to its place.
    pub open spec fn drawn(&self, block: &Field, offset_x: u16, offset_y: u16, ended: bool) -> Seq<
        char,
    > {
        let x = (self.x + offset_x) as u16;
        let y = (self.y + offset_y) as u16;
        let wall = wall_glyph(block, ended);
        cursor_sequence(x, y) + wall + cursor_sequence((x + 1) as u16, y) + wall + cursor_sequence(
            (x + 2) as u16,
            y,
        ) + wall + cursor_sequence(x, (y + 1) as u16) + wall + cursor_sequence(
            (x + 2) as u16,
            (y + 1) as u16,
        ) + wall + cursor_sequence(x, (y + 2) as u16) + wall + cursor_sequence(
            (x + 1) as u16,
            (y + 2) as u16,
        ) + wall + cursor_sequence((x + 2) as u16, (y + 2) as u16) + wall + cursor_sequence(
            (x + 1) as u16,
            (y + 1) as u16,
        ) + face_glyph(block, ended)
    }

    /// The text that draws the block for the cell `block` on a terminal.
    pub fn render(&self, block: &Field, offset_x: &u16, offset_y: &u16, ended: bool) -> (text:
        String)
        requires
            self.x + 2 + *offset_x <= u16::MAX,
            self.y + 2 + *offset_y <= u16::MAX,
            self.x + *offset_x > 0 || self.y + *offset_y > 0,
        ensures
            text@ == self.drawn(block, *offset_x, *offset_y, ended),
    {
        let x: u16 = self.x + *offset_x;
        let y: u16 = self.y + *offset_y;
        let wall: &str = if ended || block.is_clicked || block.is_flagged {
            " "
        } else {
            "▒"
        };
        let mut text = String::new();
        text.append(goto_text(x, y).as_str());
        text.append(wall);
        text.append(goto_text(x + 1, y).as_str());
        text.append(wall);
        text.append(goto_text(x + 2, y).as_str());
        text.append(wall);
        text.append(goto_text(x, y + 1).as_str());
        text.append(wall);
        text.append(goto_text(x + 2, y + 1).as_str());
        text.append(wall);
        text.append(goto_text(x, y + 2).as_str());
        text.append(wall);
        text.append(goto_text(x + 1, y + 2).as_str());
        text.append(wall);
        text.append(goto_text(x + 2, y + 2).as_str());
        text.append(wall);
        text.append(goto_text(x + 1, y + 1).as_str());
        if ended || block.is_clicked {
            if ended && block.is_flagged && block.is_mine {
                text.append("▓");
            } else if block.is_mine {
                text.append("🔥");
            } else if block.mines_around == 0 {
                text.append(" ");
            } else {
                text.append(decimal_text(block.mines_around as u64).as_str());
            }
        } else {
            text.append("▓");
        }
        assert(text@ =~= self.drawn(block, *offset_x, *offset_y, ended));
        text
    }
}

impl PartialEq for Tile {
    fn eq(&self, other: &Self) -> (same: bool) {
        self.x == other.x && self.y == other.y
    }
}

impl PartialEqSpecImpl for Tile {
    open spec fn obeys_eq_spec() -> bool {
        true
    }

    open spec fn eq_spec(&self, other: &Self) -> bool {
        self.x == other.x && self.y == other.y
    }
}

impl Eq for Tile {

}

impl PartialOrd for Tile {
    fn partial_cmp(&self, other: &Self) -> (r: Option<Ordering>) {
        Some(self.cmp(other))
    }
}

impl PartialOrdSpecImpl for Tile {
    open spec fn obeys_partial_cmp_spec() -> bool {
        true
    }

    open spec fn partial_cmp_spec(&self, other: &Self) -> Option<Ordering> {
        Some(self.order(other))
    }
}

/// Two blocks compare as equal exactly when they stand at the same place.
pub proof fn tile_order_equal_iff_same_place(a: Tile, b: Tile)
    ensures
        a.order(&b) == Ordering::Equal <==> (a.x == b.x && a.y == b.y),
{
}

} // verus!
