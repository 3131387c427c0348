use onchain_programs::identity::Identity;
use onchain_programs::tic_tac_toe::{
    play, setup_game, Game, GameState, Sign, Tile, TicTacToeError,
};

fn player(n: u8) -> Identity {
    Identity::new([n; 32])
}

fn started_game() -> Game {
    let mut game = Game::new();
    assert_eq!(game.start([player(1), player(2)]), Ok(()));
    game
}

fn play_all(game: &mut Game, moves: &[(u8, u8)]) {
    for (row, column) in moves {
        assert_eq!(game.play(&Tile::new(*row, *column)), Ok(()));
    }
}

#[test]
fn new_game_has_not_started() {
    let game = Game::new();
    assert_eq!(game.turn(), 0);
    assert_eq!(game.state(), GameState::Active);
    assert!(game.is_active());
    assert_eq!(game.board(), [[None; 3]; 3]);
    assert_eq!(Game::MAXIMUM_SIZE, 116);
}

#[test]
fn start_sets_players_and_turn() {
    let mut game = Game::new();
    assert_eq!(game.start([player(1), player(2)]), Ok(()));
    assert_eq!(game.turn(), 1);
    assert_eq!(game.players(), [player(1), player(2)]);
    assert_eq!(game.state(), GameState::Active);
    assert_eq!(game.board(), [[None; 3]; 3]);
    assert_eq!(game.current_player(), player(1));
}

#[test]
fn game_is_started_only_once() {
    let mut game = Game::new();
    assert_eq!(setup_game(&mut game, player(1), player(2)), Ok(()));
    assert_eq!(
        setup_game(&mut game, player(3), player(4)),
        Err(TicTacToeError::GameAlreadyStarted)
    );
    assert_eq!(game.players(), [player(1), player(2)]);
    assert_eq!(game.turn(), 1);
    play_all(&mut game, &[(0, 0), (1, 1)]);
    assert_eq!(game.start([player(3), player(4)]), Err(TicTacToeError::GameAlreadyStarted));
    assert_eq!(game.players(), [player(1), player(2)]);
    assert_eq!(game.turn(), 3);
}

#[test]
fn first_player_wins_with_the_top_row() {
    let mut game = started_game();
    let moves = [(0, 0), (1, 0), (0, 1), (1, 1), (0, 2)];
    for (i, (row, column)) in moves.iter().enumerate() {
        assert_eq!(game.turn() as usize, i + 1);
        assert_eq!(game.current_player(), player(1 + (i % 2) as u8));
        assert_eq!(game.play(&Tile::new(*row, *column)), Ok(()));
    }
    assert_eq!(game.state(), GameState::Won { winner: player(1) });
    assert_eq!(game.turn(), 5);
    assert!(!game.is_active());
    assert_eq!(
        game.board(),
        [
            [Some(Sign::X), Some(Sign::X), Some(Sign::X)],
            [Some(Sign::O), Some(Sign::O), None],
            [None, None, None],
        ]
    );
}

#[test]
fn nine_moves_without_a_line_are_a_tie() {
    let mut game = started_game();
    let moves = [(0, 0), (0, 1), (0, 2), (1, 1), (1, 0), (1, 2), (2, 1), (2, 0)];
    play_all(&mut game, &moves);
    assert_eq!(game.state(), GameState::Active);
    assert_eq!(game.turn(), 9);
    assert_eq!(game.play(&Tile::new(2, 2)), Ok(()));
    assert_eq!(game.state(), GameState::Tie);
    assert_eq!(game.turn(), 9);
    assert!(!game.is_active());
    assert_eq!(
        game.board(),
        [
            [Some(Sign::X), Some(Sign::O), Some(Sign::X)],
            [Some(Sign::X), Some(Sign::O), Some(Sign::O)],
            [Some(Sign::O), Some(Sign::X), Some(Sign::X)],
        ]
    );
    assert_eq!(game.play(&Tile::new(2, 2)), Err(TicTacToeError::GameAlreadyOver));
}

#[test]
fn second_player_wins_with_the_other_diagonal() {
    // The eighth move completes the diagonal from the top right, so the
    // game is over before the board is full.
    let mut game = started_game();
    let moves = [(0, 0), (1, 1), (0, 1), (0, 2), (1, 0), (1, 2), (2, 1)];
    play_all(&mut game, &moves);
    assert_eq!(game.state(), GameState::Active);
    assert_eq!(game.turn(), 8);
    assert_eq!(game.play(&Tile::new(2, 0)), Ok(()));
    assert_eq!(game.state(), GameState::Won { winner: player(2) });
    assert_eq!(game.turn(), 8);
    assert_eq!(game.play(&Tile::new(2, 2)), Err(TicTacToeError::GameAlreadyOver));
    assert_eq!(game.board()[2][2], None);
    assert_eq!(game.state(), GameState::Won { winner: player(2) });
    assert_eq!(game.turn(), 8);
}

#[test]
fn second_player_wins_with_a_column() {
    let mut game = started_game();
    play_all(&mut game, &[(0, 0), (0, 1), (2, 2), (1, 1), (0, 2), (2, 1)]);
    assert_eq!(game.state(), GameState::Won { winner: player(2) });
    assert_eq!(game.turn(), 6);
}

#[test]
fn diagonals_win() {
    let mut game = started_game();
    play_all(&mut game, &[(0, 0), (0, 1), (1, 1), (0, 2), (2, 2)]);
    assert_eq!(game.state(), GameState::Won { winner: player(1) });
    let mut game = started_game();
    play_all(&mut game, &[(0, 2), (0, 1), (1, 1), (0, 0), (2, 0)]);
    assert_eq!(game.state(), GameState::Won { winner: player(1) });
    assert_eq!(game.turn(), 5);
}

#[test]
fn last_move_can_win_on_a_full_board() {
    let mut game = started_game();
    play_all(&mut game, &[(0, 0), (0, 1), (0, 2), (1, 1), (1, 0), (1, 2), (2, 1), (2, 2), (2, 0)]);
    assert_eq!(game.state(), GameState::Won { winner: player(1) });
    assert_eq!(game.turn(), 9);
}

#[test]
fn turn_goes_up_by_one_with_each_move() {
    let mut game = started_game();
    let moves = [(1, 1), (0, 0), (2, 2), (0, 2)];
    for (i, (row, column)) in moves.iter().enumerate() {
        assert_eq!(game.turn() as usize, i + 1);
        assert_eq!(game.play(&Tile::new(*row, *column)), Ok(()));
        assert_eq!(game.turn() as usize, i + 2);
        assert!(game.is_active());
    }
}

#[test]
fn marked_tile_is_not_marked_again() {
    let mut game = started_game();
    play_all(&mut game, &[(1, 1)]);
    let before = game.board();
    assert_eq!(game.play(&Tile::new(1, 1)), Err(TicTacToeError::TileAlreadySet));
    assert_eq!(game.board(), before);
    assert_eq!(game.board()[1][1], Some(Sign::X));
    assert_eq!(game.turn(), 2);
    assert_eq!(game.current_player(), player(2));
    play_all(&mut game, &[(0, 0)]);
    assert_eq!(game.play(&Tile::new(1, 1)), Err(TicTacToeError::TileAlreadySet));
    assert_eq!(game.play(&Tile::new(0, 0)), Err(TicTacToeError::TileAlreadySet));
    assert_eq!(game.board()[1][1], Some(Sign::X));
    assert_eq!(game.board()[0][0], Some(Sign::O));
}

#[test]
fn tile_off_the_board_is_rejected() {
    let mut game = started_game();
    assert_eq!(game.play(&Tile::new(3, 0)), Err(TicTacToeError::TileOutOfBounds));
    assert_eq!(game.play(&Tile::new(0, 3)), Err(TicTacToeError::TileOutOfBounds));
    assert_eq!(game.play(&Tile::new(255, 255)), Err(TicTacToeError::TileOutOfBounds));
    assert_eq!(game.turn(), 1);
    assert_eq!(game.board(), [[None; 3]; 3]);
    // Also in a game that has not started.
    let mut game = Game::new();
    assert_eq!(game.play(&Tile::new(3, 3)), Err(TicTacToeError::TileOutOfBounds));
    assert_eq!(game.turn(), 0);
}

#[test]
fn finished_game_takes_no_move() {
    let mut game = started_game();
    play_all(&mut game, &[(0, 0), (1, 0), (0, 1), (1, 1), (0, 2)]);
    let board = game.board();
    assert_eq!(game.play(&Tile::new(2, 2)), Err(TicTacToeError::GameAlreadyOver));
    assert_eq!(game.play(&Tile::new(0, 0)), Err(TicTacToeError::GameAlreadyOver));
    assert_eq!(game.play(&Tile::new(3, 0)), Err(TicTacToeError::GameAlreadyOver));
    assert_eq!(game.turn(), 5);
    assert_eq!(game.board(), board);
    assert_eq!(game.state(), GameState::Won { winner: player(1) });
}

#[test]
fn only_the_current_player_moves() {
    let mut game = started_game();
    assert_eq!(
        play(&mut game, player(2), Tile::new(0, 0)),
        Err(TicTacToeError::NotPlayersTurn)
    );
    assert_eq!(
        play(&mut game, player(9), Tile::new(0, 0)),
        Err(TicTacToeError::NotPlayersTurn)
    );
    assert_eq!(game.board(), [[None; 3]; 3]);
    assert_eq!(play(&mut game, player(1), Tile::new(0, 0)), Ok(()));
    assert_eq!(
        play(&mut game, player(1), Tile::new(0, 1)),
        Err(TicTacToeError::NotPlayersTurn)
    );
    assert_eq!(play(&mut game, player(2), Tile::new(0, 0)), Err(TicTacToeError::TileAlreadySet));
    assert_eq!(play(&mut game, player(2), Tile::new(0, 5)), Err(TicTacToeError::TileOutOfBounds));
    assert_eq!(play(&mut game, player(2), Tile::new(0, 1)), Ok(()));
    assert_eq!(game.board()[0], [Some(Sign::X), Some(Sign::O), None]);
}

#[test]
fn sign_of_player_index() {
    assert_eq!(Sign::from_usize(0), Some(Sign::X));
    assert_eq!(Sign::from_usize(1), Some(Sign::O));
    assert_eq!(Sign::from_usize(2), None);
    assert_eq!(Sign::from_usize(usize::MAX), None);
}

#[test]
fn game_is_rebuilt_from_its_parts() {
    let mut game = started_game();
    play_all(&mut game, &[(0, 0), (1, 0), (0, 1)]);
    let rebuilt = Game::from_parts(game.players(), game.turn(), game.board(), game.state()).unwrap();
    assert_eq!(rebuilt.players(), game.players());
    assert_eq!(rebuilt.turn(), 4);
    assert_eq!(rebuilt.board(), game.board());
    assert_eq!(rebuilt.state(), GameState::Active);

    play_all(&mut game, &[(1, 1), (0, 2)]);
    let rebuilt = Game::from_parts(game.players(), game.turn(), game.board(), game.state()).unwrap();
    assert_eq!(rebuilt.state(), GameState::Won { winner: player(1) });

    let fresh = Game::new();
    assert!(Game::from_parts(fresh.players(), 0, fresh.board(), fresh.state()).is_some());
}

#[test]
fn parts_that_make_no_game_are_refused() {
    let players = [player(1), player(2)];
    let empty = [[None; 3]; 3];
    // A turn that does not count the marks.
    assert!(Game::from_parts(players, 3, empty, GameState::Active).is_none());
    // A mark before the start.
    let mut one = empty;
    one[0][0] = Some(Sign::X);
    assert!(Game::from_parts(players, 0, one, GameState::Active).is_none());
    assert!(Game::from_parts(players, 2, one, GameState::Active).is_some());
    // A state that the board does not give.
    assert!(Game::from_parts(players, 1, one, GameState::Tie).is_none());
    assert!(Game::from_parts(players, 1, one, GameState::Won { winner: player(1) }).is_none());
    let row = [[Some(Sign::X); 3], [Some(Sign::O), Some(Sign::O), None], [None; 3]];
    assert!(Game::from_parts(players, 6, row, GameState::Active).is_none());
    assert!(Game::from_parts(players, 5, row, GameState::Won { winner: player(1) }).is_some());
    // The winner is the player whose turn it was.
    assert!(Game::from_parts(players, 5, row, GameState::Won { winner: player(2) }).is_none());
}
