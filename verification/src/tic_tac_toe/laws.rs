//! What holds of the game over any moves.

use vstd::prelude::*;
use crate::identity::Identity;
use crate::tic_tac_toe::model::{
    GameView, Tile, TicTacToeError, sign_of_index, lemma_place_adds_mark,
};

verus! {

/// The game after the moves `tiles` were asked for in order, each by the
/// player whose turn it was. A move that is rejected leaves the game as it
/// is.
pub open spec fn after_moves(game: GameView, tiles: Seq<Tile>) -> GameView
    decreases tiles.len(),
{
    if tiles.len() == 0 {
        game
    } else {
        let before = after_moves(game, tiles.drop_last());
        match before.play(tiles.last()) {
            Ok(next) => next,
            Err(_) => before,
        }
    }
}

/// The number of the moves `tiles` that were accepted.
pub open spec fn accepted_moves(game: GameView, tiles: Seq<Tile>) -> nat
    decreases tiles.len(),
{
    if tiles.len() == 0 {
        0
    } else {
        let before = after_moves(game, tiles.drop_last());
        accepted_moves(game, tiles.drop_last()) + if before.play(tiles.last()) is Ok {
            1nat
        } else {
            0nat
        }
    }
}

/// A game that has not started, with two players named, is well formed.
pub proof fn lemma_initial_is_wf(players: Seq<Identity>)
    requires
        players.len() == 2,
    ensures
        GameView::initial(players).wf(),
        !GameView::initial(players).started(),
{
    let game = GameView::initial(players);
    assert(game.cell(0, 0) is None);
}

/// Starting a well-formed game with two players gives a well-formed game
/// that has started.
pub proof fn lemma_start_keeps_wf(game: GameView, players: Seq<Identity>)
    requires
        game.wf(),
        players.len() == 2,
    ensures
        match game.start(players) {
            Ok(next) => next.wf() && next.started(),
            Err(_) => true,
        },
{
    if game.start(players) is Ok {
        let next = game.start(players)->Ok_0;
        assert(next.has_winning_trio() == game.has_winning_trio());
        assert(next.full() == game.full());
    }
}

/// The turn of a well-formed game never goes beyond nine.
pub proof fn lemma_turn_at_most_nine(game: GameView)
    requires
        game.wf(),
    ensures
        game.turn <= 9,
{
    if game.state is Active {
        let (row, column) = choose|row: int, column: int|
            0 <= row < 3 && 0 <= column < 3 && !(#[trigger] game.cell(row, column) is Some);
        assert(game.cell(row, column) is None);
    }
}

/// A well-formed game that has not started is active and has an empty
/// board.
pub proof fn lemma_not_started_is_empty(game: GameView)
    requires
        game.wf(),
        !game.started(),
    ensures
        game.state is Active,
        forall|row: int, column: int|
            0 <= row < 3 && 0 <= column < 3 ==> (#[trigger] game.cell(row, column)) is None,
{
}

/// An accepted move adds one to the turn if the game is still active after
/// it, and leaves the turn as it is if the move ends the game.
pub proof fn lemma_move_advances_turn(game: GameView, tile: Tile)
    ensures
        match game.play(tile) {
            Ok(next) => next.turn == if next.state is Active {
                game.turn + 1
            } else {
                game.turn
            },
            Err(_) => true,
        },
{
}

/// A game that is won or tied accepts no move.
pub proof fn lemma_finished_game_rejects_moves(game: GameView, tile: Tile)
    requires
        !(game.state is Active),
    ensures
        game.play(tile) == Err::<GameView, TicTacToeError>(TicTacToeError::GameAlreadyOver),
{
}

/// Over any moves on an active game, the turn goes up by one with each
/// accepted move but the one that ends the game.
pub proof fn lemma_turn_counts_moves(game: GameView, tiles: Seq<Tile>)
    requires
        game.state is Active,
    ensures
        after_moves(game, tiles).state is Active ==> after_moves(game, tiles).turn == game.turn
            + accepted_moves(game, tiles),
        !(after_moves(game, tiles).state is Active) ==> after_moves(game, tiles).turn == game.turn
            + accepted_moves(game, tiles) - 1,
    decreases tiles.len(),
{
    if tiles.len() > 0 {
        lemma_turn_counts_moves(game, tiles.drop_last());
    }
}

/// Once a game is won or tied, no moves change it.
pub proof fn lemma_finished_game_stays(game: GameView, tiles: Seq<Tile>)
    requires
        !(game.state is Active),
    ensures
        after_moves(game, tiles) == game,
    decreases tiles.len(),
{
    if tiles.len() > 0 {
        lemma_finished_game_stays(game, tiles.drop_last());
    }
}

/// A move keeps the shape of the board and the two players.
pub proof fn lemma_move_keeps_shape(game: GameView, tile: Tile)
    requires
        game.well_shaped(),
    ensures
        match game.play(tile) {
            Ok(next) => next.well_shaped() && next.players == game.players,
            Err(_) => true,
        },
{
    if game.play(tile) is Ok {
        lemma_place_adds_mark(game, tile, sign_of_index(game.current_player_index()));
    }
}

/// A move on a well-formed game that has started gives a well-formed game.
pub proof fn lemma_move_keeps_wf(game: GameView, tile: Tile)
    requires
        game.wf(),
        game.started(),
    ensures
        match game.play(tile) {
            Ok(next) => next.wf() && next.started(),
            Err(_) => true,
        },
{
    if game.play(tile) is Ok {
        let sign = sign_of_index(game.current_player_index());
        lemma_place_adds_mark(game, tile, sign);
        let marked = GameView { board: game.place(tile, sign), ..game };
        let next = game.play(tile)->Ok_0;
        assert(next.board == marked.board);
        assert(next.has_winning_trio() == marked.has_winning_trio());
        assert(next.full() == marked.full());
        if next.state is Active {
            assert(!marked.full());
            assert(marked.marks() <= 8) by {
                let (row, column) = choose|row: int, column: int|
                    0 <= row < 3 && 0 <= column < 3 && !(#[trigger] marked.cell(row, column) is Some);
                assert(marked.cell(row, column) is None);
            }
        }
    }
}

/// Any moves on a well-formed game that has started give a well-formed game.
pub proof fn lemma_moves_keep_wf(game: GameView, tiles: Seq<Tile>)
    requires
        game.wf(),
        game.started(),
    ensures
        after_moves(game, tiles).wf(),
        after_moves(game, tiles).started(),
    decreases tiles.len(),
{
    if tiles.len() > 0 {
        lemma_moves_keep_wf(game, tiles.drop_last());
        lemma_move_keeps_wf(after_moves(game, tiles.drop_last()), tiles.last());
    }
}

/// A cell that holds a mark keeps it through a move, and a move that aims at
/// it in an active game is rejected.
pub proof fn lemma_mark_stays(game: GameView, tile: Tile, row: int, column: int)
    requires
        game.well_shaped(),
        0 <= row < 3,
        0 <= column < 3,
        game.cell(row, column) is Some,
    ensures
        match game.play(tile) {
            Ok(next) => next.cell(row, column) == game.cell(row, column),
            Err(_) => true,
        },
        game.state is Active && tile.row == row && tile.column == column ==> game.play(tile) == Err::<
            GameView,
            TicTacToeError,
        >(TicTacToeError::TileAlreadySet),
{
    if game.play(tile) is Ok {
        lemma_place_adds_mark(game, tile, sign_of_index(game.current_player_index()));
    }
}

/// A cell that holds a mark keeps it through any moves: no cell is marked
/// twice.
pub proof fn lemma_mark_stays_over_moves(game: GameView, tiles: Seq<Tile>, row: int, column: int)
    requires
        game.well_shaped(),
        0 <= row < 3,
        0 <= column < 3,
        game.cell(row, column) is Some,
    ensures
        after_moves(game, tiles).well_shaped(),
        after_moves(game, tiles).cell(row, column) == game.cell(row, column),
    decreases tiles.len(),
{
    if tiles.len() > 0 {
        lemma_mark_stays_over_moves(game, tiles.drop_last(), row, column);
        let before = after_moves(game, tiles.drop_last());
        lemma_move_keeps_shape(before, tiles.last());
        lemma_mark_stays(before, tiles.last(), row, column);
    }
}

/// In an active game a move at a tile off the board is rejected as such. In
/// a game that is won or tied the same move is rejected because the game is
/// over.
pub proof fn lemma_off_board_rejected(game: GameView, tile: Tile)
    requires
        !tile.in_bounds(),
    ensures
        game.play(tile) == Err::<GameView, TicTacToeError>(
            if game.state is Active {
                TicTacToeError::TileOutOfBounds
            } else {
                TicTacToeError::GameAlreadyOver
            },
        ),
{
}

/// A game that was started is not started again, whatever moves were made
/// in between.
pub proof fn lemma_started_once(
    game: GameView,
    first: Seq<Identity>,
    tiles: Seq<Tile>,
    second: Seq<Identity>,
)
    ensures
        match game.start(first) {
            Ok(started) => after_moves(started, tiles).start(second) == Err::<
                GameView,
                TicTacToeError,
            >(TicTacToeError::GameAlreadyStarted),
            Err(_) => true,
        },
{
    if game.start(first) is Ok {
        lemma_started_stays(game.start(first)->Ok_0, tiles);
    }
}

/// A game that has started stays started through any moves.
pub proof fn lemma_started_stays(game: GameView, tiles: Seq<Tile>)
    requires
        game.started(),
    ensures
        after_moves(game, tiles).started(),
    decreases tiles.len(),
{
    if tiles.len() > 0 {
        lemma_started_stays(game, tiles.drop_last());
    }
}

} // verus!
