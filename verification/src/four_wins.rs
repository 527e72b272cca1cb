use vstd::prelude::*;

use crate::field::{empty_grid, Field};
use crate::fill::Fill;

verus! {

/// The number of columns over which a player moves the piece in hand.
pub const FIELD_BLOCKS_HORIZONTAL: usize = 8;

/// The number of rows of the board that the game is played on.
pub const FIELD_BLOCKS_VERTICAL: usize = 8;

/// The player whose turn it is and the column over which the piece hovers.
#[derive(Clone, Copy, PartialEq, Eq, Debug, Structural)]
pub struct PlayerData {
    pub position: usize,
    pub index: i32,
}

/// How the round stands: the number of the player who has won it, or a
/// negative number while it is open.
#[derive(Clone, Copy, PartialEq, Eq, Debug, Structural)]
pub struct GameState {
    pub victorious_player_index: i32,
}

/// What one update of the game asks the screen to show.
#[derive(Clone, Copy, PartialEq, Eq, Debug, Structural)]
pub enum PlayerAction {
    /// Nothing changes on the screen.
    Idle,
    /// A new round begins: every piece leaves the screen, and the player
    /// whose turn it is gets a piece in hand.
    NewRound,
    /// The piece in hand hovers over the column `PlayerData::position`.
    Hover,
    /// The piece in hand has come to rest in `row` of the column
    /// `PlayerData::position`, and the next player gets a piece in hand.
    Dropped { row: usize },
    /// The piece in hand has come to rest in `row` of the column
    /// `PlayerData::position`, and with it `winner` has won the round.
    Won { row: usize, winner: i32 },
}

/// The piece that the player with the given number drops.
pub open spec fn player_fill(index: i32) -> Fill {
    if index == 0 {
        Fill::Player1
    } else {
        Fill::Player2
    }
}

/// The number of the player whose turn follows: `0` and `1` take turns. The
/// remainder keeps the sign of `index + 1`.
pub open spec fn next_index(index: i32) -> int {
    if (index + 1) % 2 == 0 {
        0
    } else if index + 1 > 0 {
        1
    } else {
        -1
    }
}

/// The column over which the piece hovers after the player has asked to
/// move it: one to the left unless it is in the first column, then one to the
/// right unless it is in the last.
pub open spec fn moved_position(position: usize, left: bool, right: bool) -> int {
    let after_left = if left && position > 0 {
        position - 1
    } else {
        position as int
    };
    if right && after_left < FIELD_BLOCKS_HORIZONTAL - 1 {
        after_left + 1
    } else {
        after_left
    }
}

/// One update of the game. `left`, `right` and `drop` tell what the player
/// has just asked for; `controlled` tells whether a piece is in hand.
///
/// After a round is won, only `drop` has an effect: it clears the board for
/// a new round. While a round is open, the piece is moved first; `drop` then
/// lets a piece in hand fall into its column, unless the column is full.
/// The piece decides the round if it completes a line, else the turn passes.
pub fn update_player_actions(
    game_state: &mut GameState,
    field: &mut Field,
    player_data: &mut PlayerData,
    left: bool,
    right: bool,
    drop: bool,
    controlled: bool,
) -> (action: PlayerAction)
    requires
        old(field).wf(),
        old(field).height <= i32::MAX,
        old(player_data).index < i32::MAX,
    ensures
        final(field).wf(),
        final(field).height == old(field).height,
        final(field).width == old(field).width,
        ({
            let column = moved_position(old(player_data).position, left, right);
            let row = old(field).drop_row(column);
            if old(game_state).victorious_player_index >= 0 {
                // The round is over: only a new round can begin.
                &&& *final(player_data) == *old(player_data)
                &&& if drop {
                    &&& action == PlayerAction::NewRound
                    &&& final(field)@ == empty_grid(
                        old(field).width as nat,
                        old(field).height as nat,
                    )
                    &&& final(game_state).victorious_player_index == -1
                } else {
                    &&& action == PlayerAction::Idle
                    &&& *final(field) == *old(field)
                    &&& *final(game_state) == *old(game_state)
                }
            } else if !controlled || !drop || row == -1 {
                // The round is open and no piece falls.
                &&& action == if controlled {
                    PlayerAction::Hover
                } else {
                    PlayerAction::Idle
                }
                &&& final(player_data).position == column
                &&& final(player_data).index == old(player_data).index
                &&& *final(field) == *old(field)
                &&& *final(game_state) == *old(game_state)
            } else {
                // The round is open and the piece in hand falls into its column.
                &&& 0 <= row < old(field).height
                &&& final(player_data).position == column
                &&& final(field)@ == old(field)@.update(
                    column,
                    old(field)@[column].update(row, player_fill(old(player_data).index)),
                )
                &&& final(game_state).victorious_player_index == final(field).winner()
                &&& final(field).winner() == -1 <==> forall|x: int, y: int|
                    !final(field).wins_at(x, y)
                &&& if final(field).winner() >= 0 {
                    &&& action == (PlayerAction::Won {
                        row: row as usize,
                        winner: final(field).winner() as i32,
                    })
                    &&& final(player_data).index == old(player_data).index
                } else {
                    &&& action == (PlayerAction::Dropped { row: row as usize })
                    &&& final(player_data).index == next_index(old(player_data).index)
                }
            }
        }),
        // The cells that decide where the piece would come to rest.
        ({
            let column = moved_position(old(player_data).position, left, right);
            let row = old(field).drop_row(column);
            &&& row != -1 ==> old(field).is_drop_row(column, row)
            &&& row > 0 ==> old(field).fill_at(column, row - 1) != Fill::Empty
            &&& row == -1 ==> old(field).fill_at(column, old(field).height - 1) != Fill::Empty
        }),
{
    proof {
        field.lemma_drop_row_cells(moved_position(player_data.position, left, right));
    }
    if game_state.victorious_player_index >= 0 {
        if drop {
            field.reset();
            game_state.victorious_player_index = -1;
            return PlayerAction::NewRound;
        }
        return PlayerAction::Idle;
    }
    if left {
        if player_data.position > 0 {
            player_data.position -= 1;
        }
    }
    if right {
        if player_data.position < FIELD_BLOCKS_HORIZONTAL - 1 {
            player_data.position += 1;
        }
    }
    if !controlled {
        return PlayerAction::Idle;
    }
    if drop {
        let y = field.insert(
            player_data.position,
            match player_data.index {
                0 => Fill::Player1,
                _ => Fill::Player2,
            },
        );
        if y >= 0 {
            game_state.victorious_player_index = field.get_winner();
            if game_state.victorious_player_index >= 0 {
                return PlayerAction::Won {
                    row: y as usize,
                    winner: game_state.victorious_player_index,
                };
            }
            player_data.index = (player_data.index + 1) % 2;
            return PlayerAction::Dropped { row: y as usize };
        }
    }
    PlayerAction::Hover
}

} // verus!
