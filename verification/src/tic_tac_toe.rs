//! A game of noughts and crosses between two players.
//!
//! `setup_game` and `play` are the two calls that the program takes. Who the
//! caller is has been established before they are called.

use vstd::prelude::*;
use crate::identity::Identity;

pub mod model;
pub mod game;
pub mod laws;

pub use game::Game;
pub use model::{GameState, GameView, Sign, Tile, TicTacToeError};

verus! {

/// Starts `game` between `player_one`, who moves first, and `player_two`. A
/// game that has started is not started again.
pub fn setup_game(game: &mut Game, player_one: Identity, player_two: Identity) -> (result: Result<
    (),
    TicTacToeError,
>)
    requires
        old(game).wf(),
    ensures
        final(game).wf(),
        match old(game)@.start(seq![player_one, player_two]) {
            Ok(next) => result is Ok && final(game)@ == next,
            Err(e) => result == Err::<(), TicTacToeError>(e) && *final(game) == *old(game),
        },
{
    let players = [player_one, player_two];
    assert(players@ =~= seq![player_one, player_two]);
    game.start(players)
}

/// Marks `tile` for `player`. The move is rejected when it is not the turn of
/// `player`, and else as `Game::play` says. The game is to have started.
pub fn play(game: &mut Game, player: Identity, tile: Tile) -> (result: Result<(), TicTacToeError>)
    requires
        old(game).wf(),
        old(game)@.started(),
    ensures
        final(game).wf(),
        match old(game)@.play_by(player, tile) {
            Ok(next) => result is Ok && final(game)@ == next,
            Err(e) => result == Err::<(), TicTacToeError>(e) && *final(game) == *old(game),
        },
{
    if game.current_player() != player {
        return Err(TicTacToeError::NotPlayersTurn);
    }
    game.play(&tile)
}

} // verus!
