//! The game engine: one board, the player to move and whether the game
//! is still open. It is the single writer of all game state.
use vstd::prelude::*;
use crate::align::{has_line, has_line_spec};
use crate::grid::GridPlugin;
use crate::dot::{
    cells_wf, count_filled, placement_outcome, slot, Dot, DotColor, DotStorage, PlacementError,
    TilePos,
};

verus! {

/// The side of the grid of a default game.
pub const TILEMAP_SIZE: usize = 16;

/// How many aligned marks win a default game.
pub const KAING_VALUE: u32 = 5;

/// Why a move was refused.
#[derive(Clone, Copy, Debug, PartialEq, Eq, Structural)]
pub enum MoveError {
    /// The board refused the placement.
    Placement(PlacementError),
    /// The game is over: no move is taken until it is reset.
    GameClosed,
    /// The move was made with the mark of the player who is not to move.
    NotYourTurn,
}

/// The phase of a game.
#[derive(Clone, Copy, Debug, PartialEq, Eq, Structural)]
pub enum GameState {
    InGame,
    GameOver,
}

impl Default for GameState {
    fn default() -> (r: GameState)
        ensures
            r == GameState::InGame,
    {
        GameState::InGame
    }
}

/// What a game holds: the board's side and cells, the line length that
/// wins, the mark of the player to move (the winner's once the game is
/// over) and whether the game is still open.
pub struct GameModel {
    pub n: nat,
    pub k: nat,
    pub cells: Seq<Option<Dot>>,
    pub color: DotColor,
    pub open: bool,
}

impl GameModel {
    pub open spec fn wf(self) -> bool {
        &&& cells_wf(self.n, self.cells)
        &&& self.n * self.n <= u32::MAX
        &&& self.n < 0x10000
        &&& self.k <= u32::MAX
    }

    /// The number of marks on the board.
    pub open spec fn filled(self) -> nat {
        count_filled(self.cells)
    }

    /// The content of cell `(x, y)`.
    pub open spec fn cell(self, x: int, y: int) -> Option<Dot> {
        self.cells[slot(self.n, x, y)]
    }

    /// The winner, once the game is over.
    pub open spec fn result(self) -> Option<DotColor> {
        if self.open {
            None
        } else {
            Some(self.color)
        }
    }
}

/// A new game: empty board, `BLUE` to move.
pub open spec fn fresh_game(n: nat, k: nat) -> GameModel {
    GameModel {
        n,
        k,
        cells: Seq::new(n * n, |i: int| None::<Dot>),
        color: DotColor::BLUE,
        open: true,
    }
}

/// What a move at `pos` by the player to move returns.
pub open spec fn move_outcome(g: GameModel, pos: TilePos) -> Result<(), MoveError> {
    if !g.open {
        Err(MoveError::GameClosed)
    } else {
        match placement_outcome(g.n, g.cells, pos) {
            Ok(_) => Ok(()),
            Err(e) => Err(MoveError::Placement(e)),
        }
    }
}

/// The game after a move at `pos` by the player to move. An accepted move
/// marks the cell; if it completes a line the game closes with the mover
/// as the winner, else the other player is to move. A refused move
/// changes nothing.
pub open spec fn after_move(g: GameModel, pos: TilePos) -> GameModel {
    if move_outcome(g, pos) is Ok {
        let cells = g.cells.update(slot(g.n, pos.x as int, pos.y as int), Some(Dot { color: g.color, pos }));
        if has_line_spec(g.n, cells, g.color, g.k as int) {
            GameModel { cells, open: false, ..g }
        } else {
            GameModel { cells, color: g.color.other_spec(), ..g }
        }
    } else {
        g
    }
}

/// The state of one game.
#[derive(Clone)]
pub struct Game {
    /// The mark of the player to move; once the game is over, the winner's.
    pub dot_color: DotColor,
    pub dot_storage: DotStorage,
    /// False once a player has aligned `k` marks.
    pub open: bool,
    /// How many aligned marks win.
    pub k: u32,
}

impl View for Game {
    type V = GameModel;

    open spec fn view(&self) -> GameModel {
        GameModel {
            n: self.dot_storage@.n,
            k: self.k as nat,
            cells: self.dot_storage@.cells,
            color: self.dot_color,
            open: self.open,
        }
    }
}

impl Default for Game {
    /// A game on a 16 by 16 grid where five aligned marks win.
    fn default() -> (r: Game)
        ensures
            r.wf(),
            r@ == fresh_game(TILEMAP_SIZE as nat, KAING_VALUE as nat),
    {
        GamePlugin::default().build()
    }
}

/// The settings of a game: its grid and how many aligned marks win.
pub struct GamePlugin {
    pub grid: GridPlugin,
    pub align: u32,
}

impl Default for GamePlugin {
    /// A 16 by 16 grid where five aligned marks win.
    fn default() -> (r: GamePlugin)
        ensures
            r.grid.size == TILEMAP_SIZE,
            r.align == KAING_VALUE,
    {
        GamePlugin { grid: GridPlugin::default(), align: KAING_VALUE }
    }
}

impl GamePlugin {
    /// A new game with these settings.
    pub fn build(&self) -> (r: Game)
        requires
            self.grid.size * self.grid.size <= u32::MAX,
        ensures
            r.wf(),
            r@ == fresh_game(self.grid.size as nat, self.align as nat),
    {
        Game { dot_color: DotColor::BLUE, dot_storage: self.grid.build(), open: true, k: self.align }
    }
}

impl Game {
    pub open spec fn wf(&self) -> bool {
        self.dot_storage.wf()
    }

    /// A new game on an `n` by `n` grid where `k` aligned marks win.
    pub fn new(n: usize, k: u32) -> (r: Game)
        requires
            n * n <= u32::MAX,
        ensures
            r.wf(),
            r@ == fresh_game(n as nat, k as nat),
    {
        GamePlugin { grid: GridPlugin { size: n }, align: k }.build()
    }

    /// Ends the game if the player to move has aligned `k` marks; hands the
    /// turn to the other player otherwise.
    pub fn next_player(&mut self)
        requires
            old(self).wf(),
        ensures
            final(self).wf(),
            final(self).dot_storage@ == old(self).dot_storage@,
            final(self).k == old(self).k,
            if has_line_spec(old(self)@.n, old(self)@.cells, old(self).dot_color, old(self).k as int) {
                &&& !final(self).open
                &&& final(self).dot_color == old(self).dot_color
            } else {
                &&& final(self).open == old(self).open
                &&& final(self).dot_color == old(self).dot_color.other_spec()
            },
    {
        if is_winner(self) {
            self.open = false;
            return;
        }
        self.dot_color = self.dot_color.other();
    }

    /// The number of the current turn: one turn is a move of each player.
    pub fn get_turn(&self) -> (r: u32)
        requires
            self.wf(),
        ensures
            r == (self.dot_storage@.dot_count + 1) / 2,
    {
        let nb_dot = self.dot_storage.filled();
        nb_dot / 2 + nb_dot % 2
    }

    /// The phase of the game.
    pub fn state(&self) -> (r: GameState)
        ensures
            r == (if self.open {
                GameState::InGame
            } else {
                GameState::GameOver
            }),
    {
        if self.open {
            GameState::InGame
        } else {
            GameState::GameOver
        }
    }

    /// A detached copy of the game.
    pub fn snapshot(&self) -> (r: Game)
        requires
            self.wf(),
        ensures
            r.wf(),
            r@ == self@,
    {
        Game {
            dot_color: self.dot_color,
            dot_storage: self.dot_storage.snapshot(),
            open: self.open,
            k: self.k,
        }
    }

    /// Starts the game over: an empty board of the same size, `BLUE` to
    /// move. Allowed in any phase.
    pub fn reset(&mut self)
        requires
            old(self).wf(),
        ensures
            final(self).wf(),
            final(self)@ == fresh_game(old(self)@.n, old(self)@.k),
    {
        *self = Game::new(self.dot_storage.size(), self.k);
    }
}

/// Whether the player to move has aligned `k` marks.
pub fn is_winner(game: &Game) -> (r: bool)
    requires
        game.wf(),
    ensures
        r == has_line_spec(game@.n, game@.cells, game.dot_color, game.k as int),
{
    has_line(&game.dot_storage, game.dot_color, game.k)
}

/// The winner of the game, once it is over.
pub fn game_result(game: &Game) -> (r: Option<DotColor>)
    ensures
        r == game@.result(),
{
    if game.open {
        None
    } else {
        Some(game.dot_color)
    }
}

/// Plays the player to move at `tile_pos`. Fails with `GameClosed` once
/// the game is over, and with the board's error where it refuses the
/// cell; then nothing changes. An accepted move marks the cell, then ends
/// the game if it completes a line of `k` (the mover stays recorded as
/// the winner) or hands the turn to the other player. A board filled
/// without a line leaves the game open: no result is declared, and every
/// further move is refused as `CellOccupied` until the game is reset.
pub fn spawn_dot(game: &mut Game, tile_pos: TilePos) -> (r: Result<(), MoveError>)
    requires
        old(game).wf(),
    ensures
        final(game).wf(),
        r == move_outcome(old(game)@, tile_pos),
        final(game)@ == after_move(old(game)@, tile_pos),
        r is Ok ==> final(game).dot_storage@.dot_count == old(game).dot_storage@.dot_count + 1,
        r is Err ==> final(game).dot_storage@.dot_count == old(game).dot_storage@.dot_count,
{
    if !game.open {
        return Err(MoveError::GameClosed);
    }
    let dot = Dot { color: game.dot_color, pos: tile_pos };
    match game.dot_storage.push(dot) {
        Ok(()) => {},
        Err(e) => {
            return Err(MoveError::Placement(e));
        },
    }
    game.next_player();
    Ok(())
}

} // verus!
