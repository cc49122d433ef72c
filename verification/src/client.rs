use vstd::prelude::*;
use crate::board::fits_i32;
use crate::game::Difficulty;
use crate::geometry::Point;
use crate::messages::{
    CellSelectedMessage, CreateGameMessage, GameDefinition, GameStartMessage, JoinGameMessage, OpenGamesMessage,
    SimpleMessage,
};
use crate::multiplayer::{Multiplayer, exact_half_bound, selected_by_player};
use crate::serializables::{SerializablePoint, plain_cells};
use crate::strings::Strings;

verus! {

/// The address of the game server the native client talks to.
pub fn get_ws_url() -> (s: String)
    ensures
        s@ == "ws://localhost:8000"@,
{
    String::from_str("ws://localhost:8000")
}

/// A character of the Unicode `White_Space` property.
pub open spec fn is_white_space(c: char) -> bool {
    let n = c as int;
    ||| 0x9 <= n <= 0xD
    ||| n == 0x20 || n == 0x85 || n == 0xA0 || n == 0x1680
    ||| 0x2000 <= n <= 0x200A
    ||| n == 0x2028 || n == 0x2029 || n == 0x202F || n == 0x205F || n == 0x3000
}

/// The text without its leading white space.
pub open spec fn without_leading_space(s: Seq<char>) -> Seq<char>
    decreases s.len(),
{
    if s.len() > 0 && is_white_space(s[0]) {
        without_leading_space(s.drop_first())
    } else {
        s
    }
}

/// The text without its trailing white space.
pub open spec fn without_trailing_space(s: Seq<char>) -> Seq<char>
    decreases s.len(),
{
    if s.len() > 0 && is_white_space(s.last()) {
        without_trailing_space(s.drop_last())
    } else {
        s
    }
}

/// The text with leading and trailing white space removed.
pub open spec fn trimmed(s: Seq<char>) -> Seq<char> {
    without_trailing_space(without_leading_space(s))
}

/// `str::trim`: the text without its leading and trailing white space,
/// white space being the characters of the Unicode `White_Space` property.
#[verifier::external_body]
fn trim_text(s: &str) -> (t: &str)
    ensures
        t@ == trimmed(s@),
{
    s.trim()
}

/// A game waiting for an opponent, as the lobby shows it.
#[derive(Clone)]
pub struct OpenGame {
    pub name: String,
    pub difficulty: Difficulty,
    pub game_id: String,
}

/// What the player did in the join form.
pub enum JoinGameAction {
    Idle,
    Join(String, String),
    Cancel,
}

/// What the player did in the list of open games.
pub enum GameListAction<'a> {
    Idle,
    Join(&'a OpenGame),
}

/// What the player did in the new-game form.
pub enum NewGameFormAction {
    Idle,
    Create { name: String, difficulty: Difficulty },
    Cancel,
}

/// What the player did on a game card.
pub enum GameCardAction {
    Idle,
    Join,
}

/// The form in which a player joins an open game under a name.
pub struct JoinGameForm {
    name: String,
    game: Option<OpenGame>,
}

impl JoinGameForm {
    /// The name typed so far.
    pub closed spec fn name(&self) -> Seq<char> {
        self.name@
    }

    /// The game the form is open for, with its name, level and id.
    pub closed spec fn game(&self) -> Option<(Seq<char>, Difficulty, Seq<char>)> {
        match self.game {
            Some(g) => Some((g.name@, g.difficulty, g.game_id@)),
            None => None,
        }
    }

    /// A closed form with an empty name.
    pub fn new() -> (f: Self)
        ensures
            f.name().len() == 0,
            f.game() is None,
    {
        JoinGameForm { name: String::new(), game: None }
    }

    /// Opens the form for `game` with an empty name.
    pub fn open(&mut self, game: &OpenGame)
        ensures
            final(self).game() == Some((game.name@, game.difficulty, game.game_id@)),
            final(self).name().len() == 0,
    {
        self.game = Some(OpenGame { name: game.name.clone(), difficulty: game.difficulty, game_id: game.game_id.clone() });
        self.name = String::new();
    }

    /// The form is open for some game.
    pub fn is_open(&self) -> (b: bool)
        ensures
            b == self.game() is Some,
    {
        self.game.is_some()
    }

    /// Closes the form and empties the name.
    pub fn reset(&mut self)
        ensures
            final(self).game() is None,
            final(self).name().len() == 0,
    {
        self.name = String::new();
        self.game = None;
    }

    /// The name typed so far.
    pub fn get_name(&self) -> (s: &str)
        ensures
            s@ == self.name(),
    {
        self.name.as_str()
    }

    /// The game the form is open for.
    pub fn get_game(&self) -> (g: Option<&OpenGame>)
        ensures
            g matches Some(og) ==> self.game() == Some(open_game_view(*og)),
            g is None ==> self.game() is None,
    {
        self.game.as_ref()
    }

    /// The name field now holds `name`.
    pub fn set_name(&mut self, name: String)
        ensures
            final(self).name() == name@,
            final(self).game() == old(self).game(),
    {
        self.name = name;
    }

    /// The join button is enabled: the name is not blank.
    pub fn can_join(&self) -> (b: bool)
        ensures
            b == (trimmed(self.name()).len() > 0),
    {
        !trim_text(self.name.as_str()).is_empty()
    }

    /// What the form's buttons amount to: joining (when the name is not
    /// blank) with the game's id and the name as typed, or cancelling, which
    /// also follows from closing the window. Any action but `Idle` resets
    /// the form. A closed form does nothing.
    pub fn handle_input(&mut self, cancel_clicked: bool, join_clicked: bool, window_open: bool) -> (a: JoinGameAction)
        ensures
            old(self).game() is None ==> a is Idle && final(self).game() == old(self).game() && final(self).name()
                == old(self).name(),
            old(self).game() matches Some((_, _, id)) ==> {
                let join = join_clicked && trimmed(old(self).name()).len() > 0;
                &&& !window_open ==> a is Cancel
                &&& window_open && join ==> (a matches JoinGameAction::Join(gid, name) && gid@ == id && name@
                    == old(self).name())
                &&& window_open && !join && cancel_clicked ==> a is Cancel
                &&& window_open && !join && !cancel_clicked ==> a is Idle
                &&& !(a is Idle) ==> final(self).game() is None && final(self).name().len() == 0
                &&& a is Idle ==> final(self).game() == old(self).game() && final(self).name() == old(self).name()
            },
    {
        let can_join = self.can_join();
        let mut action = JoinGameAction::Idle;
        match &self.game {
            None => {
                return JoinGameAction::Idle;
            },
            Some(game) => {
                if cancel_clicked {
                    action = JoinGameAction::Cancel;
                }
                if join_clicked && can_join {
                    action = JoinGameAction::Join(game.game_id.clone(), self.name.clone());
                }
            },
        }
        if !window_open {
            action = JoinGameAction::Cancel;
        }
        match action {
            JoinGameAction::Idle => {},
            _ => self.reset(),
        }
        action
    }
}

/// The form in which a player creates a game: a name and a level.
pub struct NewGameForm {
    name: String,
    selected_difficulty: Difficulty,
}

impl NewGameForm {
    /// An empty form with the easy level selected.
    pub fn new() -> (f: Self)
        ensures
            f.name().len() == 0,
            f.selected_difficulty() == Difficulty::Easy,
    {
        NewGameForm { name: String::new(), selected_difficulty: Difficulty::Easy }
    }

    pub closed spec fn name(&self) -> Seq<char> {
        self.name@
    }

    pub closed spec fn selected_difficulty(&self) -> Difficulty {
        self.selected_difficulty
    }

    /// The name field now holds `name`.
    pub fn set_name(&mut self, name: String)
        ensures
            final(self).name() == name@,
            final(self).selected_difficulty() == old(self).selected_difficulty(),
    {
        self.name = name;
    }

    /// The name typed so far.
    pub fn get_name(&self) -> (s: &str)
        ensures
            s@ == self.name(),
    {
        self.name.as_str()
    }

    /// The level selected so far.
    pub fn get_selected_difficulty(&self) -> (d: Difficulty)
        ensures
            d == self.selected_difficulty(),
    {
        self.selected_difficulty
    }

    /// A level was picked.
    pub fn select_difficulty(&mut self, difficulty: Difficulty)
        ensures
            final(self).name() == old(self).name(),
            final(self).selected_difficulty() == difficulty,
    {
        self.selected_difficulty = difficulty;
    }

    /// The create button is enabled: the name is not blank.
    pub fn can_create(&self) -> (b: bool)
        ensures
            b == (trimmed(self.name()).len() > 0),
    {
        !trim_text(self.name.as_str()).is_empty()
    }

    /// What the form's button amounts to: creating a game (when the name is
    /// not blank) named by the trimmed name at the selected level, or
    /// cancelling when the window is closed. Any action but `Idle` resets
    /// the form to an empty name and the easy level.
    pub fn handle_input(&mut self, create_clicked: bool, window_open: bool) -> (a: NewGameFormAction)
        ensures
            !window_open ==> a is Cancel,
            window_open && create_clicked && trimmed(old(self).name()).len() > 0 ==> (a matches NewGameFormAction::Create {
                name,
                difficulty,
            } && name@ == trimmed(old(self).name()) && difficulty == old(self).selected_difficulty()),
            window_open && !(create_clicked && trimmed(old(self).name()).len() > 0) ==> a is Idle,
            !(a is Idle) ==> final(self).name().len() == 0 && final(self).selected_difficulty() == Difficulty::Easy,
            a is Idle ==> final(self).name() == old(self).name() && final(self).selected_difficulty() == old(
                self,
            ).selected_difficulty(),
    {
        let mut action = NewGameFormAction::Idle;
        if create_clicked && self.can_create() {
            let name = String::from_str(trim_text(self.name.as_str()));
            action = NewGameFormAction::Create { name, difficulty: self.selected_difficulty };
        }
        if !window_open {
            action = NewGameFormAction::Cancel;
        }
        match action {
            NewGameFormAction::Idle => {},
            _ => {
                self.name = String::new();
                self.selected_difficulty = Difficulty::Easy;
            },
        }
        action
    }
}

/// Which of the two players a row of the players section shows.
pub enum PlayerKind {
    Local,
    Remote,
}

impl PlayerKind {
    /// "You" for the local player, "Remote" for the other.
    pub fn label(&self) -> (s: &'static str)
        ensures
            s@ == match self {
                PlayerKind::Local => "You"@,
                PlayerKind::Remote => "Remote"@,
            },
    {
        match self {
            PlayerKind::Local => Strings::player_local_label(),
            PlayerKind::Remote => Strings::player_remote_label(),
        }
    }
}

/// A value that has a text to show.
pub trait LabelRepresentable {
    fn label(&self) -> String;
}

impl LabelRepresentable for Difficulty {
    /// "Easy", "Medium" or "Hard".
    fn label(&self) -> (s: String)
        ensures
            s@ == crate::game::difficulty_name(*self),
    {
        proof {
            reveal_strlit("Easy");
            reveal_strlit("Medium");
            reveal_strlit("Hard");
        }
        match self {
            Difficulty::Easy => String::from_str(Strings::difficulty_easy()),
            Difficulty::Medium => String::from_str(Strings::difficulty_medium()),
            Difficulty::Hard => String::from_str(Strings::difficulty_hard()),
        }
    }
}

/// A message the client received from the server.
pub enum Message {
    GameStarted(GameStartMessage),
    OpenGames(OpenGamesMessage),
    CellSelected(CellSelectedMessage),
    Text(String),
}

/// How a received message is logged.
pub open spec fn message_text(m: Message) -> Seq<char> {
    match m {
        Message::GameStarted(_) => "Game start"@,
        Message::OpenGames(msg) => "Open games list: "@ + crate::strings::decimal(msg.games@.len()),
        Message::CellSelected(msg) => "Cell selected: ("@ + crate::strings::decimal(msg.coordinates.x as nat) + ", "@
            + crate::strings::decimal(msg.coordinates.y as nat) + ")"@,
        Message::Text(t) => t@,
    }
}

impl Message {
    /// The message as it is logged.
    pub fn to_string(&self) -> (s: String)
        ensures
            s@ == message_text(*self),
    {
        match self {
            Message::GameStarted(_) => String::from_str("Game start"),
            Message::OpenGames(msg) => {
                let n = crate::strings::decimal_string(msg.games.len());
                String::from_str("Open games list: ").concat(n.as_str())
            },
            Message::CellSelected(msg) => {
                let x = crate::strings::decimal_string(msg.coordinates.x);
                let y = crate::strings::decimal_string(msg.coordinates.y);
                String::from_str("Cell selected: (").concat(x.as_str()).concat(", ").concat(y.as_str()).concat(")")
            },
            Message::Text(t) => t.clone(),
        }
    }
}

/// An open game as listed: name, level, id.
pub open spec fn open_game_view(g: OpenGame) -> (Seq<char>, Difficulty, Seq<char>) {
    (g.name@, g.difficulty, g.game_id@)
}

/// The client's lobby and game state.
pub struct MinesBoomer {
    game: Option<Multiplayer>,
    is_active: bool,
    games_list: Vec<OpenGame>,
    waiting_for_enemy: bool,
    waiting_game_info: Option<(String, Difficulty)>,
    show_game_name_popup: bool,
    last_remote_move: Option<Point>,
    new_game_form: NewGameForm,
    join_game_form: JoinGameForm,
}

impl MinesBoomer {
    /// The game being played, if any.
    pub closed spec fn game(&self) -> Option<Multiplayer> {
        self.game
    }

    /// The local player is on turn.
    pub closed spec fn is_active(&self) -> bool {
        self.is_active
    }

    /// The open games, as listed.
    pub closed spec fn games_list(&self) -> Seq<(Seq<char>, Difficulty, Seq<char>)> {
        self.games_list@.map_values(|g: OpenGame| open_game_view(g))
    }

    /// The player hosts a game and waits for an opponent.
    pub closed spec fn waiting_for_enemy(&self) -> bool {
        self.waiting_for_enemy
    }

    /// The name and level of the game the player waits in.
    pub closed spec fn waiting_game_info(&self) -> Option<(Seq<char>, Difficulty)> {
        match self.waiting_game_info {
            Some((n, d)) => Some((n@, d)),
            None => None,
        }
    }

    /// The new-game form is shown.
    pub closed spec fn show_game_name_popup(&self) -> bool {
        self.show_game_name_popup
    }

    /// Where the opponent played last.
    pub closed spec fn last_remote_move(&self) -> Option<Point> {
        self.last_remote_move
    }

    /// The new-game form.
    pub closed spec fn new_form(&self) -> NewGameForm {
        self.new_game_form
    }

    /// The join form.
    pub closed spec fn join_form(&self) -> JoinGameForm {
        self.join_game_form
    }

    /// The game, when there is one, can be played by the rules as stated.
    pub open spec fn wf(&self) -> bool {
        self.game() matches Some(g) ==> {
            &&& g.wf()
            &&& fits_i32(g.game.board.dims())
            &&& g.game.total_mines <= exact_half_bound()
        }
    }

    /// No game, no open games, not on turn, not waiting; the new-game form
    /// is empty with the easy level selected and the join form is closed.
    pub fn new() -> (c: Self)
        ensures
            c.wf(),
            c.game() is None,
            !c.is_active(),
            c.games_list().len() == 0,
            !c.waiting_for_enemy(),
            c.waiting_game_info() is None,
            !c.show_game_name_popup(),
            c.last_remote_move() is None,
            c.new_form().name().len() == 0,
            c.new_form().selected_difficulty() == Difficulty::Easy,
            c.join_form().name().len() == 0,
            c.join_form().game() is None,
    {
        MinesBoomer {
            game: None,
            is_active: false,
            games_list: Vec::new(),
            waiting_for_enemy: false,
            waiting_game_info: None,
            show_game_name_popup: false,
            last_remote_move: None,
            new_game_form: NewGameForm::new(),
            join_game_form: JoinGameForm::new(),
        }
    }

    /// The game being played, if any.
    pub fn get_game(&self) -> (g: &Option<Multiplayer>)
        ensures
            *g == self.game(),
    {
        &self.game
    }

    /// Whether the player waits for an opponent.
    pub fn is_waiting_for_enemy(&self) -> (b: bool)
        ensures
            b == self.waiting_for_enemy(),
    {
        self.waiting_for_enemy
    }

    /// Whether the local player is on turn.
    pub fn is_my_turn(&self) -> (b: bool)
        ensures
            b == self.is_active(),
    {
        self.is_active
    }

    /// The open games, as listed.
    pub fn open_games(&self) -> (g: &Vec<OpenGame>)
        ensures
            g@.map_values(|og: OpenGame| open_game_view(og)) == self.games_list(),
    {
        &self.games_list
    }

    /// The name and level of the game the player waits in.
    pub fn waiting_info(&self) -> (w: &Option<(String, Difficulty)>)
        ensures
            match *w {
                Some((n, d)) => self.waiting_game_info() == Some((n@, d)),
                None => self.waiting_game_info() is None,
            },
    {
        &self.waiting_game_info
    }

    /// Where the opponent played last.
    pub fn opponent_last_move(&self) -> (p: Option<Point>)
        ensures
            p == self.last_remote_move(),
    {
        self.last_remote_move
    }

    /// Whether the new-game form is shown.
    pub fn is_new_game_form_shown(&self) -> (b: bool)
        ensures
            b == self.show_game_name_popup(),
    {
        self.show_game_name_popup
    }

    /// Shows or hides the new-game form; nothing else changes.
    pub fn set_new_game_form_shown(&mut self, shown: bool)
        requires
            old(self).wf(),
        ensures
            final(self).wf(),
            final(self).new_form() == old(self).new_form(),
            final(self).join_form() == old(self).join_form(),
            final(self).show_game_name_popup() == shown,
            final(self).game() == old(self).game(),
            final(self).is_active() == old(self).is_active(),
            final(self).games_list() == old(self).games_list(),
            final(self).waiting_for_enemy() == old(self).waiting_for_enemy(),
            final(self).waiting_game_info() == old(self).waiting_game_info(),
            final(self).last_remote_move() == old(self).last_remote_move(),
    {
        self.show_game_name_popup = shown;
    }

    /// The new-game form, for the player to fill in.
    pub fn new_game_form(&mut self) -> (f: &mut NewGameForm)
        requires
            old(self).wf(),
        ensures
            *f == old(self).new_form(),
            final(self).new_form() == *final(f),
            unchanged(old(self), final(self)),
            final(self).wf(),
    {
        &mut self.new_game_form
    }

    /// The join form, for the player to fill in.
    pub fn join_game_form(&mut self) -> (f: &mut JoinGameForm)
        requires
            old(self).wf(),
        ensures
            *f == old(self).join_form(),
            final(self).join_form() == *final(f),
            unchanged(old(self), final(self)),
            final(self).wf(),
    {
        &mut self.join_game_form
    }

    /// The player asked to create a game named `name` at `difficulty`: the
    /// request to send.
    pub fn send_create_new_game_message(&mut self, name: String, difficulty: Difficulty) -> (m: CreateGameMessage)
        requires
            old(self).wf(),
        ensures
            final(self).wf(),
            final(self).new_form() == old(self).new_form(),
            final(self).join_form() == old(self).join_form(),
            final(self).waiting_game_info() == Some((name@, difficulty)),
            !final(self).show_game_name_popup(),
            final(self).game() == old(self).game(),
            final(self).is_active() == old(self).is_active(),
            final(self).games_list() == old(self).games_list(),
            final(self).waiting_for_enemy() == old(self).waiting_for_enemy(),
            final(self).last_remote_move() == old(self).last_remote_move(),
            m.name@ == "create_game"@,
            m.game.host_name@ == name@,
            m.game.id@.len() == 0,
            m.game.difficulty == difficulty,
    {
        let m = CreateGameMessage::new(name.as_str(), difficulty);
        self.waiting_game_info = Some((name, difficulty));
        self.show_game_name_popup = false;
        m
    }

    /// The request for the list of open games.
    pub fn request_open_games(&self) -> (m: SimpleMessage)
        ensures
            m.name@ == "games_request"@,
    {
        SimpleMessage::new("games_request")
    }

    /// The announcement that this player selected a cell.
    pub fn send_selected_message(&self, coordinates: Point) -> (m: CellSelectedMessage)
        ensures
            m.name@ == "cell_selected"@,
            m.coordinates == (SerializablePoint { x: coordinates.x, y: coordinates.y }),
            m.is_remote_sender,
            !m.is_active_player,
    {
        CellSelectedMessage::new(SerializablePoint { x: coordinates.x, y: coordinates.y }, true, false)
    }

    /// The request to join `game_id` as `player_name`.
    pub fn send_join_game_message(&self, game_id: &str, player_name: &str) -> (m: JoinGameMessage)
        ensures
            m.name@ == "join_game"@,
            m.game_id@ == game_id@,
            m.client_name@ == player_name@,
    {
        JoinGameMessage::new(game_id, player_name)
    }

    /// The player tapped a cell. On turn, in a game that has not finished,
    /// the cell is selected and the announcement to send is returned;
    /// otherwise nothing happens.
    pub fn on_cell_tapped(&mut self, coordinates: Point) -> (m: Option<CellSelectedMessage>)
        requires
            old(self).wf(),
        ensures
            final(self).wf(),
            final(self).new_form() == old(self).new_form(),
            final(self).join_form() == old(self).join_form(),
            final(self).show_game_name_popup() == old(self).show_game_name_popup(),
            final(self).is_active() == old(self).is_active(),
            final(self).games_list() == old(self).games_list(),
            final(self).waiting_for_enemy() == old(self).waiting_for_enemy(),
            final(self).waiting_game_info() == old(self).waiting_game_info(),
            final(self).last_remote_move() == old(self).last_remote_move(),
            (match old(self).game() {
                Some(g) => if old(self).is_active() && !g.finished() {
                    &&& final(self).game() matches Some(g2) && selected_by_player(g, coordinates, g2)
                    &&& m matches Some(msg) && msg.name@ == "cell_selected"@ && msg.coordinates == (SerializablePoint {
                        x: coordinates.x,
                        y: coordinates.y,
                    }) && msg.is_remote_sender && !msg.is_active_player
                } else {
                    final(self).game() == old(self).game() && m is None
                },
                None => final(self).game() == old(self).game() && m is None,
            }),
    {
        if !self.is_active {
            return None;
        }
        match self.game.take() {
            Some(mut game) => {
                if !game.did_game_finish() {
                    game.player_selected(coordinates);
                    self.game = Some(game);
                    Some(self.send_selected_message(coordinates))
                } else {
                    self.game = Some(game);
                    None
                }
            },
            None => None,
        }
    }

    /// Reacts to a message from the server; returns the request to send
    /// back, if any.
    ///
    /// - A start message whose game is well formed (it holds `width *
    ///   height` cells, its coordinates fit the neighbour arithmetic and its
    ///   mine count is within `exact_half_bound`) starts that game between
    ///   the named players, with the turn as the message says, and ends any
    ///   waiting. Any other start message is ignored.
    /// - The list of open games replaces the one shown.
    /// - A selected cell is played in the current game; a cell selected by
    ///   the opponent is remembered, and the turn is set as the message says.
    /// - "connected" asks for the open games; "waiting_enemy" and
    ///   "client_disconnected" set the player waiting; "host_disconnected"
    ///   drops the game and the list and asks for the open games again.
    pub fn handle_message(&mut self, message: &Message) -> (reply: Option<SimpleMessage>)
        requires
            old(self).wf(),
        ensures
            final(self).wf(),
            final(self).new_form() == old(self).new_form(),
            final(self).join_form() == old(self).join_form(),
            final(self).show_game_name_popup() == old(self).show_game_name_popup(),
            match message {
                Message::GameStarted(msg) => {
                    let sg = msg.game;
                    let ok = sg.board.data@.len() == sg.board.width * sg.board.height && sg.board.width
                        <= i32::MAX && sg.board.height <= i32::MAX && sg.total_mines <= exact_half_bound();
                    &&& reply is None
                    &&& ok ==> {
                        &&& final(self).game() matches Some(g) && {
                            &&& g.game.board.cells@ == plain_cells(sg.board.data@)
                            &&& g.game.board.dims().width == sg.board.width
                            &&& g.game.board.dims().height == sg.board.height
                            &&& g.game.total_mines == sg.total_mines
                            &&& g.game.difficulty == sg.difficulty
                            &&& g.local_player.name@ == msg.local_player@
                            &&& g.remote_player.name@ == msg.remote_player@
                            &&& g.local_player.is_active == msg.is_active
                            &&& g.remote_player.is_active == !msg.is_active
                            &&& g.local_player.mines_found@.len() == 0
                            &&& g.remote_player.mines_found@.len() == 0
                        }
                        &&& final(self).is_active() == msg.is_active
                        &&& !final(self).waiting_for_enemy()
                        &&& final(self).waiting_game_info() is None
                        &&& final(self).games_list() == old(self).games_list()
                        &&& final(self).last_remote_move() == old(self).last_remote_move()
                    }
                    &&& !ok ==> unchanged(old(self), final(self))
                },
                Message::OpenGames(msg) => {
                    &&& reply is None
                    &&& final(self).games_list() == msg.games@.map_values(
                        |d: GameDefinition| (d.host_name@, d.difficulty, d.id@),
                    )
                    &&& final(self).game() == old(self).game()
                    &&& final(self).is_active() == old(self).is_active()
                    &&& final(self).waiting_for_enemy() == old(self).waiting_for_enemy()
                    &&& final(self).waiting_game_info() == old(self).waiting_game_info()
                    &&& final(self).last_remote_move() == old(self).last_remote_move()
                },
                Message::CellSelected(msg) => {
                    let c = Point { x: msg.coordinates.x, y: msg.coordinates.y };
                    &&& reply is None
                    &&& match old(self).game() {
                        Some(g) => {
                            &&& final(self).game() matches Some(g2) && exists|g1: Multiplayer|
                                #[trigger] selected_by_player(g, c, g1) && g2 == (Multiplayer {
                                    local_player: crate::player::Player {
                                        is_active: msg.is_active_player,
                                        ..g1.local_player
                                    },
                                    remote_player: crate::player::Player {
                                        is_active: !msg.is_active_player,
                                        ..g1.remote_player
                                    },
                                    ..g1
                                })
                            &&& final(self).is_active() == msg.is_active_player
                            &&& final(self).last_remote_move() == if msg.is_remote_sender {
                                Some(c)
                            } else {
                                old(self).last_remote_move()
                            }
                            &&& final(self).games_list() == old(self).games_list()
                            &&& final(self).waiting_for_enemy() == old(self).waiting_for_enemy()
                            &&& final(self).waiting_game_info() == old(self).waiting_game_info()
                        },
                        None => unchanged(old(self), final(self)),
                    }
                },
                Message::Text(t) => {
                    if t@ == "connected"@ {
                        &&& reply matches Some(r) && r.name@ == "games_request"@
                        &&& unchanged(old(self), final(self))
                    } else if t@ == "waiting_enemy"@ || t@ == "client_disconnected"@ {
                        &&& reply is None
                        &&& final(self).waiting_for_enemy()
                        &&& final(self).game() == old(self).game()
                        &&& final(self).is_active() == old(self).is_active()
                        &&& final(self).games_list() == old(self).games_list()
                        &&& final(self).waiting_game_info() == old(self).waiting_game_info()
                        &&& final(self).last_remote_move() == old(self).last_remote_move()
                    } else if t@ == "host_disconnected"@ {
                        &&& reply matches Some(r) && r.name@ == "games_request"@
                        &&& final(self).game() is None
                        &&& final(self).games_list().len() == 0
                        &&& final(self).is_active() == old(self).is_active()
                        &&& final(self).waiting_for_enemy() == old(self).waiting_for_enemy()
                        &&& final(self).waiting_game_info() == old(self).waiting_game_info()
                        &&& final(self).last_remote_move() == old(self).last_remote_move()
                    } else {
                        &&& reply is None
                        &&& unchanged(old(self), final(self))
                    }
                },
            },
    {
        match message {
            Message::GameStarted(msg) => {
                let game = match msg.get_game() {
                    Some(g) => g,
                    None => {
                        return None;
                    },
                };
                let dims = game.board.get_size();
                if dims.width > 0x7fff_ffff || dims.height > 0x7fff_ffff || game.total_mines > 0x100_0000 {
                    return None;
                }
                let mut multi_game = Multiplayer::new_with_game(
                    game,
                    msg.local_player.as_str(),
                    msg.remote_player.as_str(),
                );
                multi_game.local_player.is_active = msg.is_active;
                multi_game.remote_player.is_active = !msg.is_active;
                self.is_active = msg.is_active;
                self.game = Some(multi_game);
                self.waiting_for_enemy = false;
                self.waiting_game_info = None;
                None
            },
            Message::OpenGames(msg) => {
                let mut games: Vec<OpenGame> = Vec::new();
                let mut i: usize = 0;
                while i < msg.games.len()
                    invariant
                        i <= msg.games@.len(),
                        games@.map_values(|g: OpenGame| open_game_view(g)) =~= msg.games@.take(
                            i as int,
                        ).map_values(|d: GameDefinition| (d.host_name@, d.difficulty, d.id@)),
                    decreases msg.games@.len() - i,
                {
                    let d = &msg.games[i];
                    let ghost before = games@;
                    let g = OpenGame { name: d.host_name.clone(), difficulty: d.difficulty, game_id: d.id.clone() };
                    games.push(g);
                    proof {
                        assert(msg.games@.take(i as int + 1) =~= msg.games@.take(i as int).push(*d));
                        assert(games@.map_values(|g: OpenGame| open_game_view(g)) =~= before.map_values(
                            |g: OpenGame| open_game_view(g),
                        ).push(open_game_view(g)));
                    }
                    i = i + 1;
                }
                proof {
                    assert(msg.games@.take(msg.games@.len() as int) =~= msg.games@);
                }
                self.games_list = games;
                None
            },
            Message::CellSelected(msg) => {
                match self.game.take() {
                    Some(mut game) => {
                        let coordinates = Point { x: msg.coordinates.x, y: msg.coordinates.y };
                        game.player_selected(coordinates);
                        if msg.is_remote_sender {
                            self.last_remote_move = Some(coordinates);
                        }
                        let ghost g1 = game;
                        game.local_player.is_active = msg.is_active_player;
                        game.remote_player.is_active = !msg.is_active_player;
                        self.is_active = msg.is_active_player;
                        self.game = Some(game);
                        None
                    },
                    None => None,
                }
            },
            Message::Text(t) => {
                proof {
                    reveal_strlit("connected");
                    reveal_strlit("waiting_enemy");
                    reveal_strlit("client_disconnected");
                    reveal_strlit("host_disconnected");
                }
                if *t == String::from_str("connected") {
                    Some(self.request_open_games())
                } else if *t == String::from_str("waiting_enemy") {
                    self.waiting_for_enemy = true;
                    None
                } else if *t == String::from_str("client_disconnected") {
                    self.waiting_for_enemy = true;
                    None
                } else if *t == String::from_str("host_disconnected") {
                    self.game = None;
                    self.games_list = Vec::new();
                    Some(self.request_open_games())
                } else {
                    None
                }
            },
        }
    }
}

/// The client state is the same in every respect the contracts speak of.
pub open spec fn unchanged(a: &MinesBoomer, b: &MinesBoomer) -> bool {
    &&& b.game() == a.game()
    &&& b.is_active() == a.is_active()
    &&& b.games_list() == a.games_list()
    &&& b.waiting_for_enemy() == a.waiting_for_enemy()
    &&& b.waiting_game_info() == a.waiting_game_info()
    &&& b.show_game_name_popup() == a.show_game_name_popup()
    &&& b.last_remote_move() == a.last_remote_move()
}

} // verus!
