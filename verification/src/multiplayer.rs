use vstd::prelude::*;
use crate::board::{Board, fits_i32};
use crate::cell::{Cell, CellKind, CellState};
use crate::game::{Difficulty, Game, mines_for, selection, size_for};
use crate::geometry::{Point, Size};
use crate::grid::{flat_index, in_bounds};
use crate::player::Player;

verus! {

/// Half the mines, rounded half up: the number a player must find to win.
pub open spec fn half_mines(total: int) -> int {
    (total + 1) / 2
}

/// The largest mine count for which halving in `f32` and rounding, as the
/// rules are written, is exact and equals `half_mines`.
pub open spec fn exact_half_bound() -> int {
    0x100_0000
}

/// The player on turn: the local player when active, else the remote one.
pub open spec fn on_turn(local: Player, remote: Player) -> Player {
    if local.is_active {
        local
    } else {
        remote
    }
}

/// `after` is what the player on turn selecting `coordinates` makes of
/// `before`. Outside the board nothing happens. Otherwise the board is
/// uncovered as by `Game::selected_at`; a mine that was not yet cleared
/// scores for the player on turn, who keeps the turn; any other cell that
/// was not yet cleared passes the turn; an already cleared cell changes
/// nothing for the players.
pub open spec fn selected_by_player(before: Multiplayer, coordinates: Point, after: Multiplayer) -> bool {
    &&& after.game.total_mines == before.game.total_mines
    &&& after.game.difficulty == before.game.difficulty
    &&& after.game.board.dims() == before.game.board.dims()
    &&& (!in_bounds(before.game.board.dims(), coordinates.x as int, coordinates.y as int)
                ==> after == before)
    &&& (in_bounds(before.game.board.dims(), coordinates.x as int, coordinates.y as int) ==> {
                let cell = before.game.board.cell(coordinates.x as int, coordinates.y as int);
                let local = before.local_player;
                let remote = before.remote_player;
                &&& selection(
                    before.game.board.dims(),
                    before.game.board.cells@,
                    coordinates,
                    after.game.board.cells@,
                )
                &&& if cell.kind == CellKind::Mine && cell.state != CellState::Cleared {
                    if local.is_active {
                        &&& after.local_player == (Player {
                            mines_found: after.local_player.mines_found,
                            ..local
                        })
                        &&& after.local_player.mines_found@ == local.mines_found@.push(coordinates)
                        &&& after.remote_player == remote
                    } else {
                        &&& after.remote_player == (Player {
                            mines_found: after.remote_player.mines_found,
                            ..remote
                        })
                        &&& after.remote_player.mines_found@ == remote.mines_found@.push(coordinates)
                        &&& after.local_player == local
                    }
                } else if cell.state != CellState::Cleared {
                    &&& after.local_player == (Player { is_active: !local.is_active, ..local })
                    &&& after.remote_player == (Player { is_active: !remote.is_active, ..remote })
                } else {
                    &&& after.local_player == local
                    &&& after.remote_player == remote
                }
            })
}

/// Where a game stands, as the local player's panel shows it.
pub enum Outcome<'a> {
    /// Nobody has found half the mines yet; the local player still needs
    /// this many.
    Playing(usize),
    /// Somebody has found half the mines, and this player found more.
    Won(&'a Player),
    /// Somebody has found half the mines, and both found as many.
    Draw,
    /// The game has not finished, yet the local player has found more than
    /// half the mines, so no count still needed can be given.
    PastHalf,
}

/// Two players play on the same board; finding a mine scores a point and
/// keeps the turn, uncovering anything else passes the turn.
#[derive(Debug)]
pub struct Multiplayer {
    pub local_player: Player,
    pub remote_player: Player,
    pub game: Game,
}

impl Multiplayer {
    /// The game's board holds one cell per position.
    pub open spec fn wf(&self) -> bool {
        self.game.wf()
    }

    /// Some player has found half the mines (rounded half up).
    pub open spec fn finished(&self) -> bool {
        let half = half_mines(self.game.total_mines as int);
        half == (self.local_player.mines_found@.len() as i32) as int || half
            == (self.remote_player.mines_found@.len() as i32) as int
    }

    /// A new game at the given level between two named players; the local
    /// player is on turn.
    pub fn new(local_player: &str, remote_player: &str, difficulty: Difficulty) -> (m: Multiplayer)
        ensures
            m.wf(),
            m.local_player.name@ == local_player@,
            m.remote_player.name@ == remote_player@,
            m.local_player.is_active,
            !m.remote_player.is_active,
            m.local_player.mines_found@.len() == 0,
            m.remote_player.mines_found@.len() == 0,
            m.local_player.id@.len() == 0,
            m.remote_player.id@.len() == 0,
            m.game.difficulty == difficulty,
            m.game.total_mines == mines_for(difficulty),
            m.game.board.dims() == size_for(difficulty),
            forall|i: int|
                0 <= i < m.game.board.cells@.len() ==> (#[trigger] m.game.board.cells@[i]).state
                    == CellState::Hidden,
            crate::board::count_mines(m.game.board.cells@) == mines_for(difficulty),
            crate::board::numbers_consistent(m.game.board.dims(), m.game.board.cells@),
    {
        let mut local_player = Player::new(local_player);
        let remote_player = Player::new(remote_player);
        local_player.is_active = true;
        Multiplayer { local_player, remote_player, game: Game::new(difficulty) }
    }

    /// A game over an existing board between two named players; the local
    /// player is on turn.
    pub fn new_with_game(inner_game: Game, local_player: &str, remote_player: &str) -> (m: Self)
        ensures
            m.game == inner_game,
            m.local_player.name@ == local_player@,
            m.remote_player.name@ == remote_player@,
            m.local_player.is_active,
            !m.remote_player.is_active,
            m.local_player.mines_found@.len() == 0,
            m.remote_player.mines_found@.len() == 0,
            m.local_player.id@.len() == 0,
            m.remote_player.id@.len() == 0,
    {
        let mut local_player = Player::new(local_player);
        let remote_player = Player::new(remote_player);
        local_player.is_active = true;
        Multiplayer { local_player, remote_player, game: inner_game }
    }

    pub fn get_board(&self) -> (b: &Board)
        ensures
            *b == self.game.board,
    {
        self.game.get_board()
    }

    pub fn get_difficulty(&self) -> (d: &Difficulty)
        ensures
            *d == self.game.difficulty,
    {
        &self.game.difficulty
    }

    /// The player on turn, for modification.
    pub fn current_player_mut(&mut self) -> (p: &mut Player)
        ensures
            *p == on_turn(old(self).local_player, old(self).remote_player),
            final(self).game == old(self).game,
            old(self).local_player.is_active ==> final(self).local_player == *final(p)
                && final(self).remote_player == old(self).remote_player,
            !old(self).local_player.is_active ==> final(self).remote_player == *final(p)
                && final(self).local_player == old(self).local_player,
    {
        if self.local_player.is_active {
            &mut self.local_player
        } else {
            &mut self.remote_player
        }
    }

    /// The player on turn.
    pub fn current_player(&self) -> (p: &Player)
        ensures
            *p == on_turn(self.local_player, self.remote_player),
    {
        if self.local_player.is_active {
            &self.local_player
        } else {
            &self.remote_player
        }
    }

    pub fn get_board_dimentions(&self) -> (s: Size)
        ensures
            s == self.game.board.dims(),
    {
        self.game.board.get_size()
    }

    /// The player on turn selects the cell at `coordinates`, as
    /// `selected_by_player` states.
    pub fn player_selected(&mut self, coordinates: Point)
        requires
            old(self).wf(),
            fits_i32(old(self).game.board.dims()),
        ensures
            final(self).wf(),
            selected_by_player(*old(self), coordinates, *final(self)),
    {
        let selected_cell: Cell = match self.game.board.cell_at(coordinates) {
            Some(c) => *c,
            None => {
                return;
            },
        };
        self.game.selected_at(coordinates);
        if selected_cell.is_mine() && !selected_cell.is_cleared() {
            if self.local_player.is_active {
                self.local_player.mines_found.push(coordinates);
            } else {
                self.remote_player.mines_found.push(coordinates);
            }
        } else if !selected_cell.is_cleared() {
            self.switch_active_player()
        }
    }

    fn switch_active_player(&mut self)
        ensures
            final(self).game == old(self).game,
            final(self).local_player == (Player {
                is_active: !old(self).local_player.is_active,
                ..old(self).local_player
            }),
            final(self).remote_player == (Player {
                is_active: !old(self).remote_player.is_active,
                ..old(self).remote_player
            }),
    {
        self.local_player.is_active = !self.local_player.is_active;
        self.remote_player.is_active = !self.remote_player.is_active;
    }

    /// Some player has found half the mines, rounded half up.
    pub fn did_game_finish(&self) -> (b: bool)
        requires
            self.game.total_mines <= exact_half_bound(),
        ensures
            b == self.finished(),
    {
        let half_mines = ((self.game.total_mines + 1) / 2) as i32;
        let local_player = self.local_player.mines_found.len() as i32;
        let remote_player = self.remote_player.mines_found.len() as i32;
        half_mines == local_player || half_mines == remote_player
    }

    /// The player with more mines found, or `None` on a tie.
    pub fn player_winning(&self) -> (p: Option<&Player>)
        ensures
            self.local_player.mines_found@.len() > self.remote_player.mines_found@.len() ==> p == Some(
                &self.local_player,
            ),
            self.local_player.mines_found@.len() < self.remote_player.mines_found@.len() ==> p == Some(
                &self.remote_player,
            ),
            self.local_player.mines_found@.len() == self.remote_player.mines_found@.len() ==> p.is_none(),
    {
        let local = self.local_player.mines_found.len();
        let remote = self.remote_player.mines_found.len();
        if local > remote {
            Some(&self.local_player)
        } else if local < remote {
            Some(&self.remote_player)
        } else {
            None
        }
    }

    /// How many mines the leading player still has to find to win.
    pub fn remaining_to_win(&self) -> (n: usize)
        requires
            self.game.total_mines <= exact_half_bound(),
            self.local_player.mines_found@.len() <= half_mines(self.game.total_mines as int),
            self.remote_player.mines_found@.len() <= half_mines(self.game.total_mines as int),
        ensures
            n == half_mines(self.game.total_mines as int) - if self.local_player.mines_found@.len()
                >= self.remote_player.mines_found@.len() {
                self.local_player.mines_found@.len()
            } else {
                self.remote_player.mines_found@.len()
            },
    {
        let local_player = self.local_player.mines_found.len();
        let remote_player = self.remote_player.mines_found.len();
        let half_mines = (self.game.total_mines + 1) / 2;
        let max = if local_player >= remote_player {
            local_player
        } else {
            remote_player
        };
        half_mines - max
    }

    /// How many mines the local player still has to find to win.
    pub fn local_to_win(&self) -> (n: usize)
        requires
            self.game.total_mines <= exact_half_bound(),
            self.local_player.mines_found@.len() <= half_mines(self.game.total_mines as int),
        ensures
            n == half_mines(self.game.total_mines as int) - self.local_player.mines_found@.len(),
    {
        let local_player = self.local_player.mines_found.len();
        let half_mines = (self.game.total_mines + 1) / 2;
        half_mines - local_player
    }

    /// One more than half the mines, rounded down.
    pub fn total_mines_to_win(&self) -> (n: usize)
        ensures
            n == 1 + self.game.total_mines / 2,
    {
        1 + self.game.total_mines / 2
    }

    /// Once some player has found half the mines, the player who found more
    /// mines than the other; `None` before that, and `None` on a tie.
    pub fn winner(&self) -> (p: Option<&Player>)
        requires
            self.game.total_mines <= exact_half_bound(),
        ensures
            !self.finished() ==> p.is_none(),
            self.finished() && self.local_player.mines_found@.len() > self.remote_player.mines_found@.len()
                ==> p == Some(&self.local_player),
            self.finished() && self.local_player.mines_found@.len() < self.remote_player.mines_found@.len()
                ==> p == Some(&self.remote_player),
            self.finished() && self.local_player.mines_found@.len() == self.remote_player.mines_found@.len()
                ==> p.is_none(),
    {
        if !self.did_game_finish() {
            return None;
        }
        if self.local_player.score() > self.remote_player.score() {
            Some(&self.local_player)
        } else if self.local_player.score() < self.remote_player.score() {
            Some(&self.remote_player)
        } else {
            None
        }
    }

    /// Where the game stands: who won, a draw, or how many mines the local
    /// player still needs.
    pub fn outcome(&self) -> (o: Outcome)
        requires
            self.game.total_mines <= exact_half_bound(),
        ensures
            ({
                let local = self.local_player.mines_found@.len();
                let remote = self.remote_player.mines_found@.len();
                let half = half_mines(self.game.total_mines as int);
                &&& !self.finished() && local <= half ==> o == Outcome::Playing((half - local) as usize)
                &&& !self.finished() && local > half ==> o == Outcome::PastHalf
                &&& self.finished() && local > remote ==> o == Outcome::Won(&self.local_player)
                &&& self.finished() && local < remote ==> o == Outcome::Won(&self.remote_player)
                &&& self.finished() && local == remote ==> o == Outcome::Draw
            }),
    {
        if self.did_game_finish() {
            match self.winner() {
                Some(p) => Outcome::Won(p),
                None => Outcome::Draw,
            }
        } else if self.local_player.mines_found.len() <= (self.game.total_mines + 1) / 2 {
            Outcome::Playing(self.local_to_win())
        } else {
            Outcome::PastHalf
        }
    }
}

} // verus!
