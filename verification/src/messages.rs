use vstd::prelude::*;
use crate::game::{Difficulty, Game};
use crate::serializables::{SerializableGame, SerializablePoint, plain_cells};

verus! {

/// An open game as the lobby lists it: who hosts it, its id and its level.
#[derive(Debug, Clone)]
pub struct GameDefinition {
    pub host_name: String,
    pub id: String,
    pub difficulty: Difficulty,
}

impl GameDefinition {
    pub fn new(id: &str, host_name: &str, difficulty: Difficulty) -> (g: Self)
        ensures
            g.host_name@ == host_name@,
            g.id@ == id@,
            g.difficulty == difficulty,
    {
        GameDefinition { host_name: String::from_str(host_name), id: String::from_str(id), difficulty }
    }
}

/// Sent to each player when a game starts: the board, the players' names
/// as this player sees them, and whether this player moves first.
pub struct GameStartMessage {
    pub game_name: String,
    pub local_player: String,
    pub remote_player: String,
    pub game: SerializableGame,
    pub is_active: bool,
}

impl GameStartMessage {
    /// A start message named "Minesweeper" carrying `game`.
    pub fn new(game: &Game, is_active: bool, local_player: String, remote_player: String) -> (m: Self)
        requires
            game.wf(),
        ensures
            m.game_name@ == "Minesweeper"@,
            m.local_player == local_player,
            m.remote_player == remote_player,
            m.is_active == is_active,
            plain_cells(m.game.board.data@) == game.board.cells@,
            m.game.board.height == game.board.dims().height,
            m.game.board.width == game.board.dims().width,
            m.game.total_mines == game.total_mines,
            m.game.difficulty == game.difficulty,
    {
        GameStartMessage {
            game_name: String::from_str("Minesweeper"),
            local_player,
            remote_player,
            game: SerializableGame::from_game(game),
            is_active,
        }
    }

    /// The carried game, or `None` when its board does not hold
    /// `width * height` cells.
    pub fn get_game(&self) -> (g: Option<Game>)
        ensures
            g is Some <==> self.game.board.data@.len() == self.game.board.width * self.game.board.height,
            g matches Some(game) ==> {
                &&& game.wf()
                &&& game.board.cells@ == plain_cells(self.game.board.data@)
                &&& game.board.dims().width == self.game.board.width
                &&& game.board.dims().height == self.game.board.height
                &&& game.total_mines == self.game.total_mines
                &&& game.difficulty == self.game.difficulty
            },
    {
        self.game.to_game()
    }
}

/// A message that is only a name, such as "games_request" or "waiting_enemy".
pub struct SimpleMessage {
    pub name: String,
}

impl SimpleMessage {
    pub fn new(name: &str) -> (m: Self)
        ensures
            m.name@ == name@,
    {
        SimpleMessage { name: String::from_str(name) }
    }
}

/// A user telling the server who it is.
pub struct IdentificationMessage {
    pub name: String,
    pub user_id: String,
}

impl IdentificationMessage {
    pub fn new(user_id: String) -> (m: Self)
        ensures
            m.name@ == "user_identification"@,
            m.user_id == user_id,
    {
        IdentificationMessage { name: String::from_str("user_identification"), user_id }
    }
}

/// A cell was selected: where, whether the receiver is not the one who
/// selected it, and whether the receiver is now on turn.
pub struct CellSelectedMessage {
    pub name: String,
    pub is_remote_sender: bool,
    pub is_active_player: bool,
    pub coordinates: SerializablePoint,
}

impl CellSelectedMessage {
    pub fn new(coordinates: SerializablePoint, is_remote_sender: bool, is_active_player: bool) -> (m: Self)
        ensures
            m.name@ == "cell_selected"@,
            m.is_remote_sender == is_remote_sender,
            m.is_active_player == is_active_player,
            m.coordinates == coordinates,
    {
        CellSelectedMessage {
            name: String::from_str("cell_selected"),
            is_remote_sender,
            is_active_player,
            coordinates,
        }
    }
}

/// The list of games waiting for an opponent.
pub struct OpenGamesMessage {
    pub name: String,
    pub games: Vec<GameDefinition>,
}

impl OpenGamesMessage {
    pub fn new(games: Vec<GameDefinition>) -> (m: Self)
        ensures
            m.name@ == "open_games"@,
            m.games == games,
    {
        OpenGamesMessage { name: String::from_str("open_games"), games }
    }
}

/// A request to host a new game.
pub struct CreateGameMessage {
    pub name: String,
    pub game: GameDefinition,
}

impl CreateGameMessage {
    /// A request by the host `name` for a game at `difficulty`; the game
    /// has no id yet.
    pub fn new(name: &str, difficulty: Difficulty) -> (m: Self)
        ensures
            m.name@ == "create_game"@,
            m.game.host_name@ == name@,
            m.game.id@ == Seq::<char>::empty(),
            m.game.difficulty == difficulty,
    {
        proof {
            reveal_strlit("");
        }
        let game = GameDefinition::new("", name, difficulty);
        CreateGameMessage { name: String::from_str("create_game"), game }
    }
}

/// A request to join the game with the given id under a name.
pub struct JoinGameMessage {
    pub name: String,
    pub game_id: String,
    pub client_name: String,
}

impl JoinGameMessage {
    pub fn new(game_id: &str, client_name: &str) -> (m: Self)
        ensures
            m.name@ == "join_game"@,
            m.game_id@ == game_id@,
            m.client_name@ == client_name@,
    {
        JoinGameMessage {
            name: String::from_str("join_game"),
            game_id: String::from_str(game_id),
            client_name: String::from_str(client_name),
        }
    }
}

} // verus!
