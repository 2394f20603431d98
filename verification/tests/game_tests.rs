use battleships::{
    create_board, display_board, place_all_ships, place_missile_token, place_token_at,
    AttackOutcome, Board, Cell, Game, GameError, GameState, Orientation, Placement, Player,
};

fn fleet_rows() -> Vec<Placement> {
    (0..5).map(|row| Placement { col: 0, row, orientation: Orientation::Horizontal }).collect()
}

fn fleet_board(size: usize) -> Board {
    let mut board = create_board(size);
    assert_eq!(place_all_ships(&mut board, &fleet_rows()).len(), 5);
    board
}

fn fleet_targets() -> Vec<(usize, usize)> {
    let sizes = [5usize, 4, 3, 3, 2];
    let mut targets = Vec::new();
    for (row, len) in sizes.into_iter().enumerate() {
        for col in 0..len {
            targets.push((col, row));
        }
    }
    targets
}

#[test]
fn game_opens_with_player_one_to_move() {
    let game = Game::new(fleet_board(9), fleet_board(9));
    assert_eq!(game.state(), GameState::AwaitingPlayer1Move);
    assert_eq!(game.state().to_move(), Some(Player::One));
    assert!(!game.has_missile(Player::One));
    assert!(!game.has_missile(Player::Two));
    let blank = display_board(&create_board(9));
    assert_eq!(display_board(game.tracking_board(Player::One)), blank);
    assert_eq!(display_board(game.tracking_board(Player::Two)), blank);
    assert_eq!(game.fleet_board(Player::One).ship_cells(), 17);
    assert_eq!(game.fleet_board(Player::Two).ship_cells(), 17);
}

#[test]
fn players_alternate_and_attack_the_other_board() {
    let mut game = Game::new(fleet_board(9), fleet_board(9));
    assert_eq!(game.take_turn(0, 0), Ok(AttackOutcome::Hit));
    assert_eq!(game.state(), GameState::AwaitingPlayer2Move);
    assert_eq!(game.fleet_board(Player::Two).cell(0, 0), Some(Cell::Hit));
    assert_eq!(game.fleet_board(Player::One).ship_cells(), 17);
    assert_eq!(game.tracking_board(Player::One).cell(0, 0), Some(Cell::Hit));
    assert_eq!(game.take_turn(8, 8), Ok(AttackOutcome::Miss));
    assert_eq!(game.state(), GameState::AwaitingPlayer1Move);
    assert_eq!(game.fleet_board(Player::One).cell(8, 8), Some(Cell::Miss));
    assert_eq!(game.tracking_board(Player::Two).cell(8, 8), Some(Cell::Miss));
    assert_eq!(game.tracking_board(Player::One).cell(8, 8), Some(Cell::Empty));
}

#[test]
fn repeated_target_uses_the_turn_and_is_marked_as_a_miss() {
    let mut game = Game::new(fleet_board(9), fleet_board(9));
    assert_eq!(game.take_turn(0, 0), Ok(AttackOutcome::Hit));
    assert_eq!(game.take_turn(5, 5), Ok(AttackOutcome::Miss));
    assert_eq!(game.take_turn(0, 0), Ok(AttackOutcome::AlreadyAttacked));
    assert_eq!(game.state(), GameState::AwaitingPlayer2Move);
    assert_eq!(game.fleet_board(Player::Two).cell(0, 0), Some(Cell::Hit));
    assert_eq!(game.tracking_board(Player::One).cell(0, 0), Some(Cell::Miss));
}

#[test]
fn move_outside_the_board_keeps_the_same_player_due() {
    let mut game = Game::new(fleet_board(10), fleet_board(10));
    let before = display_board(game.fleet_board(Player::Two));
    assert_eq!(game.take_turn(10, 0), Err(GameError::OutOfBounds));
    assert_eq!(game.take_turn(0, 10), Err(GameError::OutOfBounds));
    assert_eq!(game.state(), GameState::AwaitingPlayer1Move);
    assert_eq!(display_board(game.fleet_board(Player::Two)), before);
    assert_eq!(display_board(game.tracking_board(Player::One)), display_board(&create_board(10)));
    assert_eq!(game.take_turn(9, 9), Ok(AttackOutcome::Miss));
    assert_eq!(game.state(), GameState::AwaitingPlayer2Move);
}

#[test]
fn collecting_the_token_arms_the_player_for_one_area_attack() {
    let mut two = fleet_board(9);
    let (col, row) = place_missile_token(&mut two, 21362241).unwrap();
    let mut game = Game::new(fleet_board(9), two);
    assert_eq!(game.take_turn(col, row), Ok(AttackOutcome::MissileCollected));
    assert!(game.has_missile(Player::One));
    assert!(!game.has_missile(Player::Two));
    assert_eq!(game.fleet_board(Player::Two).cell(col, row), Some(Cell::Hit));
    assert_eq!(game.tracking_board(Player::One).cell(col, row), Some(Cell::Hit));
    assert_eq!(game.take_turn(8, 8), Ok(AttackOutcome::Miss));
    assert!(game.has_missile(Player::One));
    assert_eq!(game.take_turn(4, 0), Ok(AttackOutcome::AreaResolved));
    assert!(!game.has_missile(Player::One));
    assert_eq!(game.state(), GameState::AwaitingPlayer2Move);
    assert_eq!(game.fleet_board(Player::Two).cell(4, 0), Some(Cell::Hit));
    assert_eq!(game.fleet_board(Player::Two).cell(4, 1), Some(Cell::Miss));
    assert_eq!(game.tracking_board(Player::One).cell(4, 0), Some(Cell::Miss));
    assert_eq!(game.tracking_board(Player::One).cell(5, 0), Some(Cell::Empty));
    assert_eq!(game.tracking_board(Player::One).cell(4, 1), Some(Cell::Empty));
    assert_eq!(game.take_turn(7, 7), Ok(AttackOutcome::Miss));
    assert_eq!(game.take_turn(0, 0), Ok(AttackOutcome::Hit));
}

#[test]
fn area_attack_over_a_token_does_not_arm_again() {
    let mut two = fleet_board(9);
    assert!(place_token_at(&mut two, 6, 6));
    assert!(place_token_at(&mut two, 7, 7));
    let mut game = Game::new(fleet_board(9), two);
    assert_eq!(game.take_turn(6, 6), Ok(AttackOutcome::MissileCollected));
    assert_eq!(game.take_turn(8, 8), Ok(AttackOutcome::Miss));
    assert!(game.has_missile(Player::One));
    assert_eq!(game.take_turn(7, 7), Ok(AttackOutcome::AreaResolved));
    assert_eq!(game.fleet_board(Player::Two).cell(7, 7), Some(Cell::Hit));
    assert!(!game.has_missile(Player::One));
    assert_eq!(game.take_turn(8, 7), Ok(AttackOutcome::Miss));
    assert_eq!(game.take_turn(7, 7), Ok(AttackOutcome::AlreadyAttacked));
    assert!(!game.has_missile(Player::One));
}

#[test]
fn area_attack_outside_the_board_keeps_the_missile() {
    let mut two = fleet_board(9);
    assert!(place_token_at(&mut two, 6, 6));
    let mut game = Game::new(fleet_board(9), two);
    assert_eq!(game.take_turn(6, 6), Ok(AttackOutcome::MissileCollected));
    assert_eq!(game.take_turn(8, 8), Ok(AttackOutcome::Miss));
    assert_eq!(game.take_turn(9, 9), Err(GameError::OutOfBounds));
    assert!(game.has_missile(Player::One));
    assert_eq!(game.state(), GameState::AwaitingPlayer1Move);
}

#[test]
fn sinking_player_twos_fleet_makes_player_one_the_winner() {
    let mut game = Game::new(fleet_board(9), fleet_board(9));
    let targets = fleet_targets();
    assert_eq!(targets.len(), 17);
    for (i, &(col, row)) in targets.iter().enumerate() {
        assert_eq!(game.state(), GameState::AwaitingPlayer1Move);
        assert_eq!(game.take_turn(col, row), Ok(AttackOutcome::Hit));
        if i + 1 < targets.len() {
            assert_eq!(game.state(), GameState::AwaitingPlayer2Move);
            assert_eq!(game.take_turn(i % 9, 5 + i / 9), Ok(AttackOutcome::Miss));
        }
    }
    assert_eq!(game.fleet_board(Player::Two).ship_cells(), 0);
    assert!(game.fleet_board(Player::Two).fleet_sunk());
    assert_eq!(game.state(), GameState::GameOver(Player::One));
    assert_eq!(game.state().to_move(), None);
    let before = display_board(game.fleet_board(Player::One));
    assert_eq!(game.take_turn(8, 8), Err(GameError::InvalidInput));
    assert_eq!(game.state(), GameState::GameOver(Player::One));
    assert_eq!(display_board(game.fleet_board(Player::One)), before);
}

#[test]
fn sinking_player_ones_fleet_makes_player_two_the_winner() {
    let mut game = Game::new(fleet_board(9), fleet_board(9));
    for (i, (col, row)) in fleet_targets().into_iter().enumerate() {
        assert_eq!(game.take_turn(i % 9, 5 + i / 9), Ok(AttackOutcome::Miss));
        assert_eq!(game.state(), GameState::AwaitingPlayer2Move);
        assert_eq!(game.take_turn(col, row), Ok(AttackOutcome::Hit));
    }
    assert_eq!(game.fleet_board(Player::One).ship_cells(), 0);
    assert_eq!(game.fleet_board(Player::Two).ship_cells(), 17);
    assert_eq!(game.state(), GameState::GameOver(Player::Two));
}

#[test]
fn two_empty_boards_give_the_win_to_player_one() {
    let mut game = Game::new(create_board(9), create_board(9));
    assert_eq!(game.take_turn(0, 0), Ok(AttackOutcome::Miss));
    assert_eq!(game.state(), GameState::GameOver(Player::One));
}

#[test]
fn state_advances_by_the_fleets_that_are_sunk() {
    let one = GameState::AwaitingPlayer1Move;
    let two = GameState::AwaitingPlayer2Move;
    assert_eq!(one.advance(false, false), two);
    assert_eq!(two.advance(false, false), one);
    for state in [one, two] {
        assert_eq!(state.advance(false, true), GameState::GameOver(Player::One));
        assert_eq!(state.advance(true, false), GameState::GameOver(Player::Two));
        assert_eq!(state.advance(true, true), GameState::GameOver(Player::One));
    }
    for winner in [Player::One, Player::Two] {
        let over = GameState::GameOver(winner);
        assert_eq!(over.advance(false, false), over);
        assert_eq!(over.advance(true, true), over);
    }
    assert_eq!(Player::One.opponent(), Player::Two);
    assert_eq!(Player::Two.opponent(), Player::One);
}
