//! The game record and the functions that change it.

use vstd::prelude::*;
use crate::identity::Identity;
use crate::tic_tac_toe::model::{
    GameState, GameView, Sign, Tile, TicTacToeError, sign_of_index, empty_board, mark_count,
};
use crate::tic_tac_toe::laws::lemma_move_keeps_wf;

verus! {

impl Sign {
    /// The mark of the player with the given index: `X` for 0, `O` for 1, and
    /// none for any other number.
    pub fn from_usize(index: usize) -> (sign: Option<Sign>)
        ensures
            index <= 1 ==> sign == Some(sign_of_index(index as int)),
            index > 1 ==> sign is None,
    {
        if index == 0 {
            Some(Sign::X)
        } else if index == 1 {
            Some(Sign::O)
        } else {
            None
        }
    }
}

impl Tile {
    pub fn new(row: u8, column: u8) -> (tile: Tile)
        ensures
            tile.row == row,
            tile.column == column,
    {
        Tile { row, column }
    }
}

/// The record of one game.
#[derive(Clone, Copy, Debug)]
pub struct Game {
    players: [Identity; 2],
    turn: u8,
    board: [[Option<Sign>; 3]; 3],
    state: GameState,
}

impl View for Game {
    type V = GameView;

    closed spec fn view(&self) -> GameView {
        view_of_parts(self.players, self.turn, self.board, self.state)
    }
}

/// The game that the four parts of a record make up.
pub open spec fn view_of_parts(
    players: [Identity; 2],
    turn: u8,
    board: [[Option<Sign>; 3]; 3],
    state: GameState,
) -> GameView {
    GameView {
        players: players@,
        turn: turn as nat,
        board: Seq::new(3, |row: int| board[row]@),
        state,
    }
}

fn same_state(a: &GameState, b: &GameState) -> (same: bool)
    ensures
        same == (*a == *b),
{
    match (a, b) {
        (GameState::Active, GameState::Active) => true,
        (GameState::Tie, GameState::Tie) => true,
        (GameState::Won { winner: first }, GameState::Won { winner: second }) => *first == *second,
        _ => false,
    }
}

fn count_mark(cell: Option<Sign>) -> (count: u8)
    ensures
        count == mark_count(cell),
{
    if cell.is_some() {
        1
    } else {
        0
    }
}

impl Game {
    /// The number of bytes that a stored game takes: two players, the turn,
    /// nine cells of a tag and a mark, and the state with its winner.
    pub const MAXIMUM_SIZE: usize = (32 * 2) + 1 + (9 * (1 + 1)) + (32 + 1);

    /// See `GameView::wf`.
    pub open spec fn wf(&self) -> bool {
        self@.wf()
    }

    /// A game that has not started, with players still to be named.
    pub fn new() -> (game: Game)
        ensures
            game.wf(),
            game@.turn == 0,
            game@.state is Active,
            game@.board == empty_board(),
            forall|player: int, i: int|
                0 <= player < 2 && 0 <= i < 32 ==> (#[trigger] game@.players[player].bytes[i]) == 0,
    {
        let nobody = Identity::new([0u8; 32]);
        let game = Game {
            players: [nobody, nobody],
            turn: 0,
            board: [[None; 3]; 3],
            state: GameState::Active,
        };
        assert(game@.board =~~= empty_board());
        game
    }

    /// Starts the game with the given players, the first of whom moves first.
    /// A game that has started is not started again.
    pub fn start(&mut self, players: [Identity; 2]) -> (result: Result<(), TicTacToeError>)
        requires
            old(self).wf(),
        ensures
            final(self).wf(),
            match old(self)@.start(players@) {
                Ok(next) => result is Ok && final(self)@ == next,
                Err(e) => result == Err::<(), TicTacToeError>(e) && *final(self) == *old(self),
            },
    {
        if self.turn != 0 {
            return Err(TicTacToeError::GameAlreadyStarted);
        }
        self.players = players;
        self.turn = 1;
        Ok(())
    }

    /// The game is neither won nor tied.
    pub fn is_active(&self) -> (active: bool)
        ensures
            active == (self@.state is Active),
    {
        match self.state {
            GameState::Active => true,
            _ => false,
        }
    }

    fn current_player_index(&self) -> (index: usize)
        requires
            self@.started(),
        ensures
            index == self@.current_player_index(),
            index <= 1,
    {
        ((self.turn - 1) % 2) as usize
    }

    /// The player whose turn it is.
    pub fn current_player(&self) -> (player: Identity)
        requires
            self@.started(),
        ensures
            player == self@.current_player(),
    {
        self.players[self.current_player_index()]
    }

    fn is_winning_trio(&self, trio: [(usize, usize); 3]) -> (winning: bool)
        requires
            forall|i: int| 0 <= i < 3 ==> (#[trigger] trio[i]).0 < 3 && trio[i].1 < 3,
        ensures
            winning == self@.is_winning_trio(
                (trio[0].0 as int, trio[0].1 as int),
                (trio[1].0 as int, trio[1].1 as int),
                (trio[2].0 as int, trio[2].1 as int),
            ),
    {
        let first = trio[0];
        let second = trio[1];
        let third = trio[2];
        let a = self.board[first.0][first.1];
        let b = self.board[second.0][second.1];
        let c = self.board[third.0][third.1];
        a.is_some() && a == b && a == c
    }
}

impl Game {
    /// Sets the state to what the board gives: won by the player whose turn it
    /// is when a row, a column or a diagonal holds three equal marks, else a
    /// tie when the board is full, else active.
    fn update_state(&mut self)
        requires
            old(self)@.started(),
            old(self)@.state is Active,
        ensures
            final(self)@ == (GameView { state: old(self)@.outcome(), ..old(self)@ }),
    {
        let mut row: usize = 0;
        while row <= 2
            invariant
                row <= 3,
                *self == *old(self),
                self@.started(),
                self@.state is Active,
                forall|r: int| 0 <= r < row ==> !self@.row_won(r),
            decreases 3 - row,
        {
            if self.is_winning_trio([(row, 0), (row, 1), (row, 2)]) {
                self.state = GameState::Won { winner: self.current_player() };
                return;
            }
            row += 1;
        }
        let mut column: usize = 0;
        while column <= 2
            invariant
                column <= 3,
                *self == *old(self),
                self@.started(),
                self@.state is Active,
                forall|r: int| 0 <= r < 3 ==> !self@.row_won(r),
                forall|c: int| 0 <= c < column ==> !self@.column_won(c),
            decreases 3 - column,
        {
            if self.is_winning_trio([(0, column), (1, column), (2, column)]) {
                self.state = GameState::Won { winner: self.current_player() };
                return;
            }
            column += 1;
        }
        if self.is_winning_trio([(0, 0), (1, 1), (2, 2)]) || self.is_winning_trio(
            [(0, 2), (1, 1), (2, 0)],
        ) {
            self.state = GameState::Won { winner: self.current_player() };
            return;
        }
        assert(!self@.has_winning_trio());
        let mut row: usize = 0;
        while row <= 2
            invariant
                row <= 3,
                *self == *old(self),
                self@.started(),
                self@.state is Active,
                !self@.has_winning_trio(),
                forall|r: int, c: int| 0 <= r < row && 0 <= c < 3 ==> (#[trigger] self@.cell(r, c)) is Some,
            decreases 3 - row,
        {
            let mut column: usize = 0;
            while column <= 2
                invariant
                    row <= 2,
                    column <= 3,
                    *self == *old(self),
                    self@.started(),
                    self@.state is Active,
                    !self@.has_winning_trio(),
                    forall|r: int, c: int|
                        0 <= r < row && 0 <= c < 3 ==> (#[trigger] self@.cell(r, c)) is Some,
                    forall|c: int| 0 <= c < column ==> (#[trigger] self@.cell(row as int, c)) is Some,
                decreases 3 - column,
            {
                if self.board[row][column].is_none() {
                    assert(self@.cell(row as int, column as int) is None);
                    assert(!self@.full());
                    return;
                }
                column += 1;
            }
            row += 1;
        }
        assert(self@.full());
        self.state = GameState::Tie;
    }

    /// Marks `tile` for the player whose turn it is.
    ///
    /// The move is rejected, and the game left as it is, when the game is
    /// over, else when the tile is off the board, else when its cell holds a
    /// mark. Otherwise the cell takes the mover's mark; the game is won by
    /// the mover if a row, a column or a diagonal now holds three equal marks,
    /// tied if the board is full, and else goes on with the next turn.
    ///
    /// The game is to have started, unless the tile is off the board.
    pub fn play(&mut self, tile: &Tile) -> (result: Result<(), TicTacToeError>)
        requires
            old(self).wf(),
            old(self)@.started() || !tile.in_bounds(),
        ensures
            final(self).wf(),
            match old(self)@.play(*tile) {
                Ok(next) => result is Ok && final(self)@ == next,
                Err(e) => result == Err::<(), TicTacToeError>(e) && *final(self) == *old(self),
            },
    {
        if !self.is_active() {
            return Err(TicTacToeError::GameAlreadyOver);
        }
        if tile.row > 2 || tile.column > 2 {
            return Err(TicTacToeError::TileOutOfBounds);
        }
        let row = tile.row as usize;
        let column = tile.column as usize;
        if self.board[row][column].is_some() {
            return Err(TicTacToeError::TileAlreadySet);
        }
        let sign = Sign::from_usize(self.current_player_index()).unwrap();
        self.board[row][column] = Some(sign);
        let ghost marked = GameView { board: old(self)@.place(*tile, sign), ..old(self)@ };
        proof {
            assert(self@.board =~~= marked.board);
            assert(self@ == marked);
            lemma_move_keeps_wf(old(self)@, *tile);
        }
        self.update_state();
        if self.is_active() {
            self.turn += 1;
        }
        Ok(())
    }
}

impl Game {
    fn count_marks(&self) -> (count: u8)
        ensures
            count == self@.marks(),
            count <= 9,
    {
        count_mark(self.board[0][0]) + count_mark(self.board[0][1]) + count_mark(self.board[0][2])
            + count_mark(self.board[1][0]) + count_mark(self.board[1][1]) + count_mark(
            self.board[1][2],
        ) + count_mark(self.board[2][0]) + count_mark(self.board[2][1]) + count_mark(
            self.board[2][2],
        )
    }

    /// The game made of the given parts, if they make up a well-formed game,
    /// and nothing if they do not.
    pub fn from_parts(
        players: [Identity; 2],
        turn: u8,
        board: [[Option<Sign>; 3]; 3],
        state: GameState,
    ) -> (game: Option<Game>)
        ensures
            match game {
                Some(g) => g.wf() && g@ == view_of_parts(players, turn, board, state),
                None => !view_of_parts(players, turn, board, state).wf(),
            },
    {
        let game = Game { players, turn, board, state };
        let marks = game.count_marks();
        if turn == 0 {
            if marks == 0 && game.is_active() {
                assert(game@.cell(0, 0) is None);
                Some(game)
            } else {
                None
            }
        } else {
            let mut probe = Game { players, turn, board, state: GameState::Active };
            probe.update_state();
            let agrees = same_state(&probe.state, &state);
            let counted = if game.is_active() {
                marks + 1 == turn
            } else {
                marks == turn
            };
            assert(probe@.state == game@.outcome()) by {
                assert(probe@.board =~~= game@.board);
            }
            if agrees && counted {
                Some(game)
            } else {
                None
            }
        }
    }

    /// The two players; the one at index 0 moves first.
    pub fn players(&self) -> (players: [Identity; 2])
        ensures
            players@ == self@.players,
    {
        self.players
    }

    /// Zero before the game has started. In an active game the moves made so
    /// far plus one; in a finished game the number of moves made.
    pub fn turn(&self) -> (turn: u8)
        ensures
            turn == self@.turn,
    {
        self.turn
    }

    /// The rows of the board, top to bottom, each left to right.
    pub fn board(&self) -> (board: [[Option<Sign>; 3]; 3])
        ensures
            forall|row: int, column: int|
                0 <= row < 3 && 0 <= column < 3 ==> board[row][column] == #[trigger] self@.cell(
                    row,
                    column,
                ),
    {
        self.board
    }

    /// How the game stands.
    pub fn state(&self) -> (state: GameState)
        ensures
            state == self@.state,
    {
        self.state
    }
}

} // verus!
