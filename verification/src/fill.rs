use vstd::prelude::*;

verus! {

/// What a cell of the board holds, or what a read outside the board yields.
#[derive(Clone, Copy, PartialEq, Eq, Debug, Structural)]
pub enum Fill {
    /// No piece: a dropped piece may come to rest here.
    Empty,
    /// A piece of the first player.
    Player1,
    /// A piece of the second player.
    Player2,
    /// The coordinate lies outside the board.
    OutOfBounds,
}

impl Fill {
    /// Whether the fill is a piece of one of the two players.
    pub open spec fn is_player(self) -> bool {
        self == Fill::Player1 || self == Fill::Player2
    }
}

/// The number under which a player is reported: `0` for the first player,
/// `1` for the second, `-1` for a fill that is no player's piece.
pub open spec fn player_index(fill: Fill) -> int {
    match fill {
        Fill::Player1 => 0,
        Fill::Player2 => 1,
        _ => -1,
    }
}

} // verus!
