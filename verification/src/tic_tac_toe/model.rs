//! The game as a mathematical value, and its two transitions.

use vstd::prelude::*;
use crate::identity::Identity;

verus! {

/// The mark of a player: `X` for the first mover, `O` for the second.
#[derive(Clone, Copy, Debug, PartialEq, Eq, Structural)]
pub enum Sign {
    X,
    O,
}

/// A cell of the board, by row and column. The board has rows and columns 0,
/// 1 and 2.
#[derive(Clone, Copy, Debug, PartialEq, Eq, Structural)]
pub struct Tile {
    pub row: u8,
    pub column: u8,
}

/// How the game stands.
#[derive(Clone, Copy, Debug, PartialEq, Eq)]
pub enum GameState {
    Active,
    Tie,
    Won { winner: Identity },
}

/// Why a call on the game was rejected.
#[derive(Clone, Copy, Debug, PartialEq, Eq, Structural)]
pub enum TicTacToeError {
    TileOutOfBounds,
    TileAlreadySet,
    GameAlreadyOver,
    NotPlayersTurn,
    GameAlreadyStarted,
}

/// One if the cell holds a mark, zero if it is empty.
pub open spec fn mark_count(cell: Option<Sign>) -> nat {
    if cell is Some {
        1
    } else {
        0
    }
}

/// The mark of the player with the given index.
pub open spec fn sign_of_index(index: int) -> Sign {
    if index == 0 {
        Sign::X
    } else {
        Sign::O
    }
}

/// The three rows of an empty board.
pub open spec fn empty_board() -> Seq<Seq<Option<Sign>>> {
    Seq::new(3, |row: int| Seq::new(3, |column: int| None::<Sign>))
}

impl Tile {
    /// The tile names a cell of the board.
    pub open spec fn in_bounds(self) -> bool {
        self.row <= 2 && self.column <= 2
    }
}

/// A game as a mathematical value.
pub struct GameView {
    /// The two players; the one at index 0 moves first.
    pub players: Seq<Identity>,
    /// Zero before the game has started. In an active game the moves made so
    /// far plus one; in a finished game the number of moves made.
    pub turn: nat,
    /// The rows of the board, top to bottom, each left to right.
    pub board: Seq<Seq<Option<Sign>>>,
    pub state: GameState,
}

impl GameView {
    /// A game that has not started.
    pub open spec fn initial(players: Seq<Identity>) -> GameView {
        GameView { players, turn: 0, board: empty_board(), state: GameState::Active }
    }

    /// There are two players, and the board has three rows of three cells.
    pub open spec fn well_shaped(self) -> bool {
        &&& self.players.len() == 2
        &&& self.board.len() == 3
        &&& forall|row: int| 0 <= row < 3 ==> (#[trigger] self.board[row]).len() == 3
    }

    pub open spec fn cell(self, row: int, column: int) -> Option<Sign> {
        self.board[row][column]
    }

    /// The number of cells that hold a mark.
    pub open spec fn marks(self) -> nat {
        mark_count(self.cell(0, 0)) + mark_count(self.cell(0, 1)) + mark_count(self.cell(0, 2))
            + mark_count(self.cell(1, 0)) + mark_count(self.cell(1, 1)) + mark_count(
            self.cell(1, 2),
        ) + mark_count(self.cell(2, 0)) + mark_count(self.cell(2, 1)) + mark_count(
            self.cell(2, 2),
        )
    }

    /// Every cell holds a mark.
    pub open spec fn full(self) -> bool {
        forall|row: int, column: int|
            0 <= row < 3 && 0 <= column < 3 ==> (#[trigger] self.cell(row, column)) is Some
    }

    /// The three cells hold the same mark.
    pub open spec fn is_winning_trio(self, first: (int, int), second: (int, int), third: (int, int)) -> bool {
        &&& self.cell(first.0, first.1) is Some
        &&& self.cell(first.0, first.1) == self.cell(second.0, second.1)
        &&& self.cell(first.0, first.1) == self.cell(third.0, third.1)
    }

    /// Row `row` holds three equal marks.
    pub open spec fn row_won(self, row: int) -> bool {
        self.is_winning_trio((row, 0), (row, 1), (row, 2))
    }

    /// Column `column` holds three equal marks.
    pub open spec fn column_won(self, column: int) -> bool {
        self.is_winning_trio((0, column), (1, column), (2, column))
    }

    /// One of the two diagonals holds three equal marks.
    pub open spec fn diagonal_won(self) -> bool {
        self.is_winning_trio((0, 0), (1, 1), (2, 2)) || self.is_winning_trio((0, 2), (1, 1), (2, 0))
    }

    /// Some row, column or diagonal holds three equal marks.
    pub open spec fn has_winning_trio(self) -> bool {
        self.row_won(0) || self.row_won(1) || self.row_won(2) || self.column_won(0)
            || self.column_won(1) || self.column_won(2) || self.diagonal_won()
    }

    /// The index of the player whose turn it is. It means something only once
    /// the game has started.
    pub open spec fn current_player_index(self) -> int {
        (self.turn - 1) % 2
    }

    /// The player whose turn it is. It means something only once the game has
    /// started.
    pub open spec fn current_player(self) -> Identity {
        self.players[self.current_player_index()]
    }

    /// How the game stands by its board: won by the player whose turn it is
    /// when a row, column or diagonal holds three equal marks; else a tie when
    /// the board is full; else active.
    pub open spec fn outcome(self) -> GameState {
        if self.has_winning_trio() {
            GameState::Won { winner: self.current_player() }
        } else if self.full() {
            GameState::Tie
        } else {
            GameState::Active
        }
    }

    /// What holds of every game that `start` and `play` can reach, and of more:
    /// the state is the one that the board gives, and the turn counts the
    /// marks.
    pub open spec fn wf(self) -> bool {
        &&& self.well_shaped()
        &&& self.state == self.outcome()
        &&& self.turn == 0 ==> self.marks() == 0
        &&& self.turn >= 1 && self.state is Active ==> self.marks() + 1 == self.turn
        &&& !(self.state is Active) ==> self.marks() == self.turn
    }

    /// The game has started.
    pub open spec fn started(self) -> bool {
        self.turn >= 1
    }

    /// The outcome of starting the game with the given players: a game that
    /// has not started takes the players, is active and at turn 1; a game that
    /// has started rejects the call.
    pub open spec fn start(self, players: Seq<Identity>) -> Result<GameView, TicTacToeError> {
        if self.turn == 0 {
            Ok(GameView { players, turn: 1, state: GameState::Active, ..self })
        } else {
            Err(TicTacToeError::GameAlreadyStarted)
        }
    }

    /// The board with `sign` in the cell that `tile` names.
    pub open spec fn place(self, tile: Tile, sign: Sign) -> Seq<Seq<Option<Sign>>> {
        self.board.update(
            tile.row as int,
            self.board[tile.row as int].update(tile.column as int, Some(sign)),
        )
    }

    /// The outcome of the player whose turn it is marking `tile`.
    ///
    /// The move is rejected when the game is over, else when the tile is off
    /// the board, else when its cell holds a mark. Otherwise the cell takes
    /// the mover's mark and the state becomes what the board gives. The turn
    /// goes up by one if the game is still active, and stays if not.
    pub open spec fn play(self, tile: Tile) -> Result<GameView, TicTacToeError> {
        if !(self.state is Active) {
            Err(TicTacToeError::GameAlreadyOver)
        } else if !tile.in_bounds() {
            Err(TicTacToeError::TileOutOfBounds)
        } else if self.cell(tile.row as int, tile.column as int) is Some {
            Err(TicTacToeError::TileAlreadySet)
        } else {
            let marked = GameView {
                board: self.place(tile, sign_of_index(self.current_player_index())),
                ..self
            };
            let state = marked.outcome();
            Ok(
                GameView {
                    state,
                    turn: if state is Active {
                        self.turn + 1
                    } else {
                        self.turn
                    },
                    ..marked
                },
            )
        }
    }

    /// The outcome of `player` asking to mark `tile`: rejected when it is not
    /// that player's turn, and else as `play` says.
    pub open spec fn play_by(self, player: Identity, tile: Tile) -> Result<GameView, TicTacToeError> {
        if self.current_player() != player {
            Err(TicTacToeError::NotPlayersTurn)
        } else {
            self.play(tile)
        }
    }
}

/// Marking an empty cell of the board adds one mark and changes no other
/// cell.
pub proof fn lemma_place_adds_mark(game: GameView, tile: Tile, sign: Sign)
    requires
        game.well_shaped(),
        tile.in_bounds(),
        game.cell(tile.row as int, tile.column as int) is None,
    ensures
        (GameView { board: game.place(tile, sign), ..game }).well_shaped(),
        (GameView { board: game.place(tile, sign), ..game }).marks() == game.marks() + 1,
        (GameView { board: game.place(tile, sign), ..game }).cell(tile.row as int, tile.column as int)
            == Some(sign),
        forall|row: int, column: int|
            0 <= row < 3 && 0 <= column < 3 && !(row == tile.row && column == tile.column) ==> (
            #[trigger] (GameView { board: game.place(tile, sign), ..game }).cell(row, column))
                == game.cell(row, column),
{
    let marked = GameView { board: game.place(tile, sign), ..game };
    assert(game.board[0].len() == 3 && game.board[1].len() == 3 && game.board[2].len() == 3);
    assert forall|row: int| 0 <= row < 3 implies (#[trigger] marked.board[row]).len() == 3 by {
        assert(game.board[row].len() == 3);
    }
}

} // verus!
