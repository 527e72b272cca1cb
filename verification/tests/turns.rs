use four_wins::field::Field;
use four_wins::fill::Fill;
use four_wins::four_wins::{
    update_player_actions, GameState, PlayerAction, PlayerData, FIELD_BLOCKS_HORIZONTAL,
    FIELD_BLOCKS_VERTICAL,
};

struct Game {
    state: GameState,
    field: Field,
    player: PlayerData,
}

impl Game {
    fn new() -> Game {
        Game {
            state: GameState { victorious_player_index: -1 },
            field: Field::new(FIELD_BLOCKS_HORIZONTAL, FIELD_BLOCKS_VERTICAL),
            player: PlayerData { position: 0, index: 0 },
        }
    }

    fn update(&mut self, left: bool, right: bool, drop: bool) -> PlayerAction {
        update_player_actions(
            &mut self.state,
            &mut self.field,
            &mut self.player,
            left,
            right,
            drop,
            true,
        )
    }

    fn drop_at(&mut self, column: usize) -> PlayerAction {
        self.player.position = column;
        self.update(false, false, true)
    }
}

#[test]
fn the_board_has_eight_columns_and_rows() {
    assert_eq!(FIELD_BLOCKS_HORIZONTAL, 8);
    assert_eq!(FIELD_BLOCKS_VERTICAL, 8);
}

#[test]
fn without_a_request_the_piece_hovers() {
    let mut game = Game::new();
    assert_eq!(game.update(false, false, false), PlayerAction::Hover);
    assert_eq!(game.player, PlayerData { position: 0, index: 0 });
    assert_eq!(game.state, GameState { victorious_player_index: -1 });
    assert_eq!(game.field.get_fill(0, 0), Fill::Empty);
}

#[test]
fn the_piece_moves_between_the_first_and_the_last_column() {
    let mut game = Game::new();
    assert_eq!(game.update(true, false, false), PlayerAction::Hover);
    assert_eq!(game.player.position, 0);
    for column in 1..8 {
        assert_eq!(game.update(false, true, false), PlayerAction::Hover);
        assert_eq!(game.player.position, column);
    }
    assert_eq!(game.update(false, true, false), PlayerAction::Hover);
    assert_eq!(game.player.position, 7);
    assert_eq!(game.update(true, false, false), PlayerAction::Hover);
    assert_eq!(game.player.position, 6);
    assert_eq!(game.player.index, 0);
}

#[test]
fn left_is_taken_before_right() {
    let mut game = Game::new();
    game.update(true, true, false);
    assert_eq!(game.player.position, 1);
    game.player.position = 7;
    game.update(true, true, false);
    assert_eq!(game.player.position, 7);
    game.player.position = 4;
    game.update(true, true, false);
    assert_eq!(game.player.position, 4);
}

#[test]
fn a_drop_passes_the_turn() {
    let mut game = Game::new();
    assert_eq!(game.update(false, true, true), PlayerAction::Dropped { row: 0 });
    assert_eq!(game.player, PlayerData { position: 1, index: 1 });
    assert_eq!(game.field.get_fill(1, 0), Fill::Player1);
    assert_eq!(game.state.victorious_player_index, -1);
    assert_eq!(game.update(false, false, true), PlayerAction::Dropped { row: 1 });
    assert_eq!(game.player, PlayerData { position: 1, index: 0 });
    assert_eq!(game.field.get_fill(1, 1), Fill::Player2);
    assert_eq!(game.update(true, false, true), PlayerAction::Dropped { row: 0 });
    assert_eq!(game.player, PlayerData { position: 0, index: 1 });
    assert_eq!(game.field.get_fill(0, 0), Fill::Player1);
}

#[test]
fn a_full_column_keeps_the_turn() {
    let mut game = Game::new();
    for row in 0..8 {
        assert_eq!(game.drop_at(3), PlayerAction::Dropped { row });
    }
    assert_eq!(game.player.index, 0);
    assert_eq!(game.drop_at(3), PlayerAction::Hover);
    assert_eq!(game.player, PlayerData { position: 3, index: 0 });
    assert_eq!(game.state.victorious_player_index, -1);
    for row in 0..8 {
        let fill = if row % 2 == 0 { Fill::Player1 } else { Fill::Player2 };
        assert_eq!(game.field.get_fill(3, row), fill);
    }
}

#[test]
fn the_fourth_piece_in_a_row_wins_the_round() {
    let mut game = Game::new();
    for column in 0..3 {
        assert_eq!(game.drop_at(column), PlayerAction::Dropped { row: 0 });
        assert_eq!(game.drop_at(column), PlayerAction::Dropped { row: 1 });
    }
    assert_eq!(game.drop_at(3), PlayerAction::Won { row: 0, winner: 0 });
    assert_eq!(game.state.victorious_player_index, 0);
    assert_eq!(game.player, PlayerData { position: 3, index: 0 });
    assert_eq!(game.field.get_fill(3, 0), Fill::Player1);
}

#[test]
fn the_second_player_wins_the_round() {
    let mut game = Game::new();
    for row in 0..3 {
        assert_eq!(game.drop_at(0), PlayerAction::Dropped { row });
        assert_eq!(game.drop_at(1), PlayerAction::Dropped { row });
    }
    assert_eq!(game.drop_at(7), PlayerAction::Dropped { row: 0 });
    assert_eq!(game.drop_at(1), PlayerAction::Won { row: 3, winner: 1 });
    assert_eq!(game.state.victorious_player_index, 1);
    assert_eq!(game.player.index, 1);
}

#[test]
fn after_a_win_only_a_drop_has_an_effect() {
    let mut game = Game::new();
    for column in 0..3 {
        game.drop_at(column);
        game.drop_at(column);
    }
    game.drop_at(3);
    assert_eq!(game.update(true, false, false), PlayerAction::Idle);
    assert_eq!(game.update(false, true, false), PlayerAction::Idle);
    assert_eq!(game.player, PlayerData { position: 3, index: 0 });
    assert_eq!(game.state.victorious_player_index, 0);
    assert_eq!(game.field.get_fill(3, 0), Fill::Player1);
    assert_eq!(game.field.get_winner(), 0);
}

#[test]
fn a_drop_after_a_win_begins_a_new_round() {
    let mut game = Game::new();
    for column in 0..3 {
        game.drop_at(column);
        game.drop_at(column);
    }
    game.drop_at(3);
    assert_eq!(game.update(true, true, true), PlayerAction::NewRound);
    assert_eq!(game.state.victorious_player_index, -1);
    assert_eq!(game.player, PlayerData { position: 3, index: 0 });
    for x in 0..8 {
        for y in 0..8 {
            assert_eq!(game.field.get_fill(x, y), Fill::Empty);
        }
    }
    assert_eq!(game.update(false, false, true), PlayerAction::Dropped { row: 0 });
    assert_eq!(game.field.get_fill(3, 0), Fill::Player1);
    assert_eq!(game.player.index, 1);
}

#[test]
fn without_a_piece_in_hand_nothing_falls() {
    let mut game = Game::new();
    let action = update_player_actions(
        &mut game.state,
        &mut game.field,
        &mut game.player,
        false,
        true,
        true,
        false,
    );
    assert_eq!(action, PlayerAction::Idle);
    assert_eq!(game.player, PlayerData { position: 1, index: 0 });
    assert_eq!(game.state.victorious_player_index, -1);
    assert_eq!(game.field.get_fill(1, 0), Fill::Empty);
}

#[test]
fn a_drop_outside_the_board_keeps_the_turn() {
    let mut game = Game::new();
    game.field = Field::new(6, 6);
    assert_eq!(game.drop_at(7), PlayerAction::Hover);
    assert_eq!(game.player, PlayerData { position: 7, index: 0 });
    assert_eq!(game.drop_at(5), PlayerAction::Dropped { row: 0 });
}

#[test]
fn any_other_number_plays_as_the_second_player() {
    let mut game = Game::new();
    game.player.index = 5;
    assert_eq!(game.drop_at(2), PlayerAction::Dropped { row: 0 });
    assert_eq!(game.field.get_fill(2, 0), Fill::Player2);
    assert_eq!(game.player.index, 0);
    game.player.index = -3;
    assert_eq!(game.drop_at(2), PlayerAction::Dropped { row: 1 });
    assert_eq!(game.field.get_fill(2, 1), Fill::Player2);
    assert_eq!(game.player.index, 0);
    game.player.index = -4;
    assert_eq!(game.drop_at(4), PlayerAction::Dropped { row: 0 });
    assert_eq!(game.field.get_fill(4, 0), Fill::Player2);
    assert_eq!(game.player.index, -1);
}
