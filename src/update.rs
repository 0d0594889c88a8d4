//! Plain value types shared by the rules engine and the session broker.

use vstd::prelude::*;

verus! {

/// A request to change the game: move the cursor, or place a mark.
#[derive(Clone, Copy, Debug, PartialEq, Eq, Structural)]
pub enum Move {
    Down,
    Up,
    Left,
    Right,
    Place,
    PlaceAt(Position),
}

/// A cell coordinate: `x` is the column, `y` the row.
#[derive(Clone, Copy, Debug, PartialEq, Eq, Structural)]
pub struct Position {
    pub x: usize,
    pub y: usize,
}

impl Position {
    /// The top-left cell.
    pub fn default() -> (r: Self)
        ensures
            r.x == 0 && r.y == 0,
    {
        Self { x: 0, y: 0 }
    }

    /// The position as a `(row, column)` pair.
    pub fn to_tuple(&self) -> (r: (usize, usize))
        ensures
            r == (self.y, self.x),
    {
        (self.y, self.x)
    }
}

/// Games won by each side.
#[derive(Clone, Copy, Debug, PartialEq, Eq, Structural)]
pub struct Score {
    pub player1: u32,
    pub player2: u32,
}

impl Score {
    /// No game won yet.
    pub fn default() -> (r: Score)
        ensures
            r.player1 == 0 && r.player2 == 0,
    {
        Score { player1: 0, player2: 0 }
    }

    /// No game won yet.
    pub fn new() -> (r: Score)
        ensures
            r.player1 == 0 && r.player2 == 0,
    {
        Score { player1: 0, player2: 0 }
    }
}

/// An input of a front end.
#[derive(Clone, Copy, Debug, PartialEq, Eq, Structural)]
pub enum Action {
    Move(Move),
    ToggleMenu,
    Select(u8),
    Quit,
    Reset,
}

/// Who plays the second side.
#[derive(Clone, Copy, Debug, PartialEq, Eq, Structural)]
pub enum Opponent {
    Online,
    Human,
    Random,
    Minimax,
}

/// The content of one cell of the board.
#[derive(Clone, Copy, Debug, PartialEq, Eq, Structural)]
pub enum GameCell {
    Empty,
    Cross,
    Circle,
}

/// The mark of the other side; an empty cell stays empty.
pub open spec fn opposite_of(c: GameCell) -> GameCell {
    match c {
        GameCell::Cross => GameCell::Circle,
        GameCell::Circle => GameCell::Cross,
        GameCell::Empty => GameCell::Empty,
    }
}

/// The one-letter text of a cell.
pub open spec fn cell_text(c: GameCell) -> Seq<char> {
    match c {
        GameCell::Empty => seq!['L'],
        GameCell::Cross => seq!['X'],
        GameCell::Circle => seq!['O'],
    }
}

impl GameCell {
    pub fn opposite(&self) -> (r: Self)
        ensures
            r == opposite_of(*self),
    {
        match self {
            GameCell::Cross => GameCell::Circle,
            GameCell::Circle => GameCell::Cross,
            _ => GameCell::Empty,
        }
    }

    /// The text of the cell; a position given with it must lie on the board.
    pub fn to_text(&self, pos: Option<(usize, usize)>) -> (r: String)
        requires
            pos matches Some((x, y)) ==> x < 3 && y < 3,
        ensures
            r@ == cell_text(*self),
    {
        let centre = match self {
            GameCell::Empty => "L".to_string(),
            GameCell::Cross => "X".to_string(),
            GameCell::Circle => "O".to_string(),
        };
        proof {
            reveal_strlit("L");
            reveal_strlit("X");
            reveal_strlit("O");
            assert(centre@ =~= cell_text(*self));
        }
        centre
    }
}

} // verus!
