use vstd::prelude::*;
use crate::cell::Cell;
use crate::game::Difficulty;
use crate::geometry::Point;
use crate::messages::{CellSelectedMessage, GameDefinition, GameStartMessage, OpenGamesMessage, SimpleMessage};
use crate::multiplayer::{on_turn, selected_by_player};
use crate::serializables::{SerializablePoint, plain_cells};
use crate::session::{Game, uuid_string, uuid_text};

verus! {

/// What a connected user asked the server for.
pub enum ClientRequest {
    /// The user selected a cell in the game it last created or joined.
    CellSelected { coordinates: SerializablePoint },
    /// The user hosts a new game; `game_id` is the fresh UUID the game gets.
    CreateGame { host_name: String, difficulty: Difficulty, game_id: u128 },
    /// The user joins the game with the given id under a name.
    JoinGame { game_id: String, client_name: String },
    /// The user asks for the list of open games.
    GamesRequest,
    /// Anything else; the server ignores it.
    Other,
}

/// What the server sends to a user.
pub enum ServerMessage {
    Simple(SimpleMessage),
    OpenGames(OpenGamesMessage),
    CellSelected(CellSelectedMessage),
    GameStart(GameStartMessage),
}

/// A message and the user it goes to.
pub struct Outgoing {
    pub recipient: u128,
    pub message: ServerMessage,
}

/// The contents of a server message.
pub enum ServerMessageView {
    Simple { name: Seq<char> },
    OpenGames { name: Seq<char>, games: Seq<(Seq<char>, Seq<char>, Difficulty)> },
    CellSelected { name: Seq<char>, coordinates: SerializablePoint, is_remote_sender: bool, is_active_player: bool },
    GameStart {
        game_name: Seq<char>,
        local_player: Seq<char>,
        remote_player: Seq<char>,
        is_active: bool,
        cells: Seq<Cell>,
        height: usize,
        width: usize,
        total_mines: usize,
        difficulty: Difficulty,
    },
}

/// An open game as listed: host name, id, level.
pub open spec fn definition_view(d: GameDefinition) -> (Seq<char>, Seq<char>, Difficulty) {
    (d.host_name@, d.id@, d.difficulty)
}

impl View for ServerMessage {
    type V = ServerMessageView;

    open spec fn view(&self) -> ServerMessageView {
        match self {
            ServerMessage::Simple(m) => ServerMessageView::Simple { name: m.name@ },
            ServerMessage::OpenGames(m) => ServerMessageView::OpenGames {
                name: m.name@,
                games: m.games@.map_values(|d: GameDefinition| definition_view(d)),
            },
            ServerMessage::CellSelected(m) => ServerMessageView::CellSelected {
                name: m.name@,
                coordinates: m.coordinates,
                is_remote_sender: m.is_remote_sender,
                is_active_player: m.is_active_player,
            },
            ServerMessage::GameStart(m) => ServerMessageView::GameStart {
                game_name: m.game_name@,
                local_player: m.local_player@,
                remote_player: m.remote_player@,
                is_active: m.is_active,
                cells: plain_cells(m.game.board.data@),
                height: m.game.board.height,
                width: m.game.board.width,
                total_mines: m.game.total_mines,
                difficulty: m.game.difficulty,
            },
        }
    }
}

impl View for Outgoing {
    type V = (u128, ServerMessageView);

    open spec fn view(&self) -> (u128, ServerMessageView) {
        (self.recipient, self.message@)
    }
}

/// The views of a list of outgoing messages.
pub open spec fn outgoing_views(v: Seq<Outgoing>) -> Seq<(u128, ServerMessageView)> {
    v.map_values(|o: Outgoing| o@)
}

/// The games still waiting for a client, as the lobby lists them.
pub open spec fn open_defs(games: Seq<Game>) -> Seq<(Seq<char>, Seq<char>, Difficulty)>
    decreases games.len(),
{
    if games.len() == 0 {
        Seq::empty()
    } else {
        let prev = open_defs(games.drop_last());
        let g = games.last();
        if g.client() is None {
            prev.push((g.multi_game().local_player.name@, g.id(), g.multi_game().game.difficulty))
        } else {
            prev
        }
    }
}

/// The open-games message for `games`.
pub open spec fn open_games_view(games: Seq<Game>) -> ServerMessageView {
    ServerMessageView::OpenGames { name: "open_games"@, games: open_defs(games) }
}

/// `i` is the first game with the given id.
pub open spec fn first_with_id(games: Seq<Game>, id: Seq<char>, i: int) -> bool {
    &&& 0 <= i < games.len()
    &&& games[i].id() == id
    &&& forall|j: int| 0 <= j < i ==> (#[trigger] games[j]).id() != id
}

/// `i` is the first game hosted by `player`.
pub open spec fn first_hosted_by(games: Seq<Game>, player: u128, i: int) -> bool {
    &&& 0 <= i < games.len()
    &&& games[i].host() == player
    &&& forall|j: int| 0 <= j < i ==> (#[trigger] games[j]).host() != player
}

/// `i` is the first game whose client is `player`.
pub open spec fn first_joined_by(games: Seq<Game>, player: u128, i: int) -> bool {
    &&& 0 <= i < games.len()
    &&& games[i].client() == Some(player)
    &&& forall|j: int| 0 <= j < i ==> (#[trigger] games[j]).client() != Some(player)
}

/// `player` is on turn in `g`: the player on turn carries its UUID's text.
pub open spec fn active_in(g: Game, player: u128) -> bool {
    on_turn(g.multi_game().local_player, g.multi_game().remote_player).id@ == uuid_text(player)
}

/// The cell-selected message that `player` of `g` receives.
pub open spec fn selected_view(g: Game, coordinates: SerializablePoint, sender: u128, player: u128) -> (
    u128,
    ServerMessageView,
) {
    (
        player,
        ServerMessageView::CellSelected {
            name: "cell_selected"@,
            coordinates,
            is_remote_sender: sender != player,
            is_active_player: active_in(g, player),
        },
    )
}

/// The messages sent after a selection in `g`: one per player, host first,
/// stopping at the first player that is not connected.
pub open spec fn selected_views(
    g: Game,
    coordinates: SerializablePoint,
    sender: u128,
    connected: Seq<u128>,
) -> Seq<(u128, ServerMessageView)> {
    if !connected.contains(g.host()) {
        Seq::empty()
    } else {
        let first = seq![selected_view(g, coordinates, sender, g.host())];
        match g.client() {
            Some(c) => if connected.contains(c) {
                first.push(selected_view(g, coordinates, sender, c))
            } else {
                first
            },
            None => first,
        }
    }
}

/// The start message that `player` of `g` receives.
pub open spec fn start_view(g: Game, player: u128) -> (u128, ServerMessageView) {
    let host_name = g.multi_game().local_player.name@;
    let client_name = g.multi_game().remote_player.name@;
    (
        player,
        ServerMessageView::GameStart {
            game_name: "Minesweeper"@,
            local_player: if g.host() == player {
                host_name
            } else {
                client_name
            },
            remote_player: if g.host() == player {
                client_name
            } else {
                host_name
            },
            is_active: active_in(g, player),
            cells: g.multi_game().game.board.cells@,
            height: g.multi_game().game.board.dims().height,
            width: g.multi_game().game.board.dims().width,
            total_mines: g.multi_game().game.total_mines,
            difficulty: g.multi_game().game.difficulty,
        },
    )
}

/// The start messages of `g`: one per connected player, host first.
pub open spec fn start_views(g: Game, connected: Seq<u128>) -> Seq<(u128, ServerMessageView)> {
    let first: Seq<(u128, ServerMessageView)> = if connected.contains(g.host()) {
        seq![start_view(g, g.host())]
    } else {
        Seq::empty()
    };
    match g.client() {
        Some(c) => if connected.contains(c) {
            first.push(start_view(g, c))
        } else {
            first
        },
        None => first,
    }
}

/// The open-games message for each connected user other than `sender`, in
/// the order of `connected`.
pub open spec fn broadcast_views(games: Seq<Game>, sender: u128, connected: Seq<u128>) -> Seq<
    (u128, ServerMessageView),
>
    decreases connected.len(),
{
    if connected.len() == 0 {
        Seq::empty()
    } else {
        let prev = broadcast_views(games, sender, connected.drop_last());
        if connected.last() != sender {
            prev.push((connected.last(), open_games_view(games)))
        } else {
            prev
        }
    }
}

fn contains_id(v: &Vec<u128>, x: u128) -> (b: bool)
    ensures
        b == v@.contains(x),
{
    let mut i: usize = 0;
    while i < v.len()
        invariant
            i <= v@.len(),
            forall|j: int| 0 <= j < i ==> v@[j] != x,
        decreases v@.len() - i,
    {
        if v[i] == x {
            return true;
        }
        i = i + 1;
    }
    false
}

/// The game id that the latest entry for `player` records, if any.
pub open spec fn assigned_in(entries: Seq<(u128, String)>, player: u128) -> Option<Seq<char>>
    decreases entries.len(),
{
    if entries.len() == 0 {
        None
    } else if entries.last().0 == player {
        Some(entries.last().1@)
    } else {
        assigned_in(entries.drop_last(), player)
    }
}

/// The games the server keeps, the game each user last created or joined,
/// and what it answers its users.
pub struct Lobby {
    games: Vec<Game>,
    current: Vec<(u128, String)>,
}

impl Lobby {
    /// The games, in the order they were created.
    pub closed spec fn games(&self) -> Seq<Game> {
        self.games@
    }

    /// The id of the game `player` last created or joined, while it is
    /// connected.
    pub closed spec fn game_of(&self, player: u128) -> Option<Seq<char>> {
        assigned_in(self.current@, player)
    }

    /// `after` records `id` for `player` and, for every other user, what
    /// `before` records.
    pub open spec fn reassigned(before: &Lobby, after: &Lobby, player: u128, id: Option<Seq<char>>) -> bool {
        forall|p: u128| #[trigger] after.game_of(p) == if p == player {
            id
        } else {
            before.game_of(p)
        }
    }

    /// `after` records the same game for every user as `before`.
    pub open spec fn same_assignments(before: &Lobby, after: &Lobby) -> bool {
        forall|p: u128| #[trigger] after.game_of(p) == before.game_of(p)
    }

    /// The game recorded for `player`.
    fn assigned_game(&self, player: u128) -> (r: Option<&String>)
        ensures
            match r {
                Some(s) => self.game_of(player) == Some(s@),
                None => self.game_of(player) is None,
            },
    {
        let mut found: Option<&String> = None;
        let mut i: usize = 0;
        while i < self.current.len()
            invariant
                i <= self.current@.len(),
                match found {
                    Some(s) => assigned_in(self.current@.take(i as int), player) == Some(s@),
                    None => assigned_in(self.current@.take(i as int), player) is None,
                },
            decreases self.current@.len() - i,
        {
            proof {
                assert(self.current@.take(i as int + 1).drop_last() =~= self.current@.take(i as int));
            }
            if self.current[i].0 == player {
                found = Some(&self.current[i].1);
            }
            i = i + 1;
        }
        proof {
            assert(self.current@.take(i as int) =~= self.current@);
        }
        found
    }

    /// Forgets the game recorded for `player`.
    fn unassign(&mut self, player: u128)
        ensures
            final(self).games() == old(self).games(),
            Lobby::reassigned(old(self), final(self), player, None),
    {
        let mut kept: Vec<(u128, String)> = Vec::new();
        let mut i: usize = 0;
        while i < self.current.len()
            invariant
                i <= self.current@.len(),
                forall|p: u128| #[trigger] assigned_in(kept@, p) == if p == player {
                    None
                } else {
                    assigned_in(self.current@.take(i as int), p)
                },
            decreases self.current@.len() - i,
        {
            proof {
                assert(self.current@.take(i as int + 1).drop_last() =~= self.current@.take(i as int));
            }
            let ghost prefix = self.current@.take(i as int + 1);
            let ghost before = kept@;
            if self.current[i].0 != player {
                let entry = (self.current[i].0, self.current[i].1.clone());
                kept.push(entry);
                proof {
                    assert(kept@.drop_last() =~= before);
                }
            }
            proof {
                assert(prefix.last() == self.current@[i as int]);
                assert forall|p: u128| #[trigger] assigned_in(kept@, p) == if p == player {
                    None
                } else {
                    assigned_in(prefix, p)
                } by {
                    assert(assigned_in(before, p) == if p == player {
                        None
                    } else {
                        assigned_in(self.current@.take(i as int), p)
                    });
                }
            }
            i = i + 1;
        }
        proof {
            assert(self.current@.take(i as int) =~= self.current@);
        }
        self.current = kept;
    }

    /// Records `id` as the game of `player`.
    fn assign(&mut self, player: u128, id: String)
        ensures
            final(self).games() == old(self).games(),
            Lobby::reassigned(old(self), final(self), player, Some(id@)),
    {
        self.unassign(player);
        let ghost mid = *self;
        let ghost before = self.current@;
        let ghost idv = id@;
        self.current.push((player, id));
        proof {
            assert(self.current@.drop_last() =~= before);
            assert forall|p: u128| #[trigger] self.game_of(p) == if p == player {
                Some(idv)
            } else {
                mid.game_of(p)
            } by {}
        }
    }

    /// Every game is well formed.
    pub open spec fn wf(&self) -> bool {
        forall|i: int| 0 <= i < self.games().len() ==> (#[trigger] self.games()[i]).wf()
    }

    /// A lobby without games.
    pub fn new() -> (l: Self)
        ensures
            l.wf(),
            l.games().len() == 0,
            forall|p: u128| #[trigger] l.game_of(p) is None,
    {
        Lobby { games: Vec::new(), current: Vec::new() }
    }

    /// The games, for reading.
    pub fn games_list(&self) -> (g: &Vec<Game>)
        ensures
            g@ == self.games(),
    {
        &self.games
    }

    fn find_with_id(&self, id: &String) -> (r: Option<usize>)
        ensures
            r matches Some(i) ==> first_with_id(self.games(), id@, i as int),
            r is None ==> forall|j: int| 0 <= j < self.games().len() ==> (#[trigger] self.games()[j]).id() != id@,
    {
        let mut i: usize = 0;
        while i < self.games.len()
            invariant
                i <= self.games@.len(),
                forall|j: int| 0 <= j < i ==> (#[trigger] self.games@[j]).id() != id@,
            decreases self.games@.len() - i,
        {
            let gid = String::from_str(self.games[i].get_id());
            if gid == *id {
                return Some(i);
            }
            i = i + 1;
        }
        None
    }

    /// The list of games waiting for a client.
    pub fn open_games(&self) -> (m: OpenGamesMessage)
        ensures
            ServerMessage::OpenGames(m)@ == open_games_view(self.games()),
    {
        let mut defs: Vec<GameDefinition> = Vec::new();
        let mut i: usize = 0;
        while i < self.games.len()
            invariant
                i <= self.games@.len(),
                defs@.map_values(|d: GameDefinition| definition_view(d)) =~= open_defs(self.games@.take(i as int)),
            decreases self.games@.len() - i,
        {
            let ghost before = defs@;
            proof {
                assert(self.games@.take(i as int + 1).drop_last() =~= self.games@.take(i as int));
            }
            let game = &self.games[i];
            if !game.has_client() {
                let d = GameDefinition::new(game.get_id(), game.get_host_name(), *game.get_difficulty());
                defs.push(d);
                proof {
                    assert(defs@.map_values(|d: GameDefinition| definition_view(d)) =~= before.map_values(
                        |d: GameDefinition| definition_view(d),
                    ).push(definition_view(d)));
                }
            }
            i = i + 1;
        }
        proof {
            assert(self.games@.take(self.games@.len() as int) =~= self.games@);
        }
        let m = OpenGamesMessage::new(defs);
        proof {
            reveal_strlit("open_games");
        }
        m
    }

    /// The cell-selected messages for the players of `g`, host first,
    /// stopping at the first player that is not connected.
    fn selected_messages(g: &Game, coordinates: SerializablePoint, sender: u128, connected: &Vec<u128>) -> (out: Vec<
        Outgoing,
    >)
        ensures
            outgoing_views(out@) == selected_views(*g, coordinates, sender, connected@),
    {
        let mut out: Vec<Outgoing> = Vec::new();
        proof {
            reveal_strlit("cell_selected");
        }
        let host = *g.get_host();
        if !contains_id(connected, host) {
            assert(outgoing_views(out@) =~= Seq::empty());
            return out;
        }
        let host_text = uuid_string(host);
        let host_active = g.is_player_active(host_text.as_str());
        let m = CellSelectedMessage::new(coordinates, sender != host, host_active);
        out.push(Outgoing { recipient: host, message: ServerMessage::CellSelected(m) });
        proof {
            assert(outgoing_views(out@) =~= seq![selected_view(*g, coordinates, sender, host)]);
        }
        match g.get_client() {
            Some(c) => {
                let c = *c;
                if contains_id(connected, c) {
                    let c_text = uuid_string(c);
                    let c_active = g.is_player_active(c_text.as_str());
                    let m = CellSelectedMessage::new(coordinates, sender != c, c_active);
                    let ghost before = out@;
                    out.push(Outgoing { recipient: c, message: ServerMessage::CellSelected(m) });
                    proof {
                        assert(outgoing_views(out@) =~= outgoing_views(before).push(
                            selected_view(*g, coordinates, sender, c),
                        ));
                    }
                }
            },
            None => {},
        }
        out
    }

    /// The start message for `player` of `g`.
    fn start_message(g: &Game, player: u128) -> (o: Outgoing)
        requires
            g.wf(),
        ensures
            o@ == start_view(*g, player),
    {
        let text = uuid_string(player);
        let is_active = g.is_player_active(text.as_str());
        let (local_name, remote_name) = if *g.get_host() == player {
            (String::from_str(g.get_host_name()), String::from_str(g.get_client_name()))
        } else {
            (String::from_str(g.get_client_name()), String::from_str(g.get_host_name()))
        };
        let m = GameStartMessage::new(g.get_inner_game(), is_active, local_name, remote_name);
        proof {
            reveal_strlit("Minesweeper");
        }
        Outgoing { recipient: player, message: ServerMessage::GameStart(m) }
    }

    /// The start messages for the connected players of `g`, host first.
    fn start_messages(g: &Game, connected: &Vec<u128>) -> (out: Vec<Outgoing>)
        requires
            g.wf(),
        ensures
            outgoing_views(out@) == start_views(*g, connected@),
    {
        let mut out: Vec<Outgoing> = Vec::new();
        let host = *g.get_host();
        if contains_id(connected, host) {
            out.push(Lobby::start_message(g, host));
        }
        proof {
            if connected@.contains(host) {
                assert(outgoing_views(out@) =~= seq![start_view(*g, host)]);
            } else {
                assert(outgoing_views(out@) =~= Seq::empty());
            }
        }
        match g.get_client() {
            Some(c) => {
                let c = *c;
                if contains_id(connected, c) {
                    let ghost before = out@;
                    out.push(Lobby::start_message(g, c));
                    proof {
                        assert(outgoing_views(out@) =~= outgoing_views(before).push(start_view(*g, c)));
                    }
                }
            },
            None => {},
        }
        out
    }

    /// Appends the open-games list for each connected user other than
    /// `sender`, in the order of `connected`.
    fn broadcast_open_games(&self, sender: u128, connected: &Vec<u128>, out: &mut Vec<Outgoing>)
        ensures
            outgoing_views(final(out)@) == outgoing_views(old(out)@) + broadcast_views(
                self.games(),
                sender,
                connected@,
            ),
    {
        let mut i: usize = 0;
        while i < connected.len()
            invariant
                i <= connected@.len(),
                outgoing_views(out@) == outgoing_views(old(out)@) + broadcast_views(
                    self.games(),
                    sender,
                    connected@.take(i as int),
                ),
            decreases connected@.len() - i,
        {
            proof {
                assert(connected@.take(i as int + 1).drop_last() =~= connected@.take(i as int));
            }
            let c = connected[i];
            if c != sender {
                let ghost before = out@;
                let m = self.open_games();
                out.push(Outgoing { recipient: c, message: ServerMessage::OpenGames(m) });
                proof {
                    assert(outgoing_views(out@) =~= outgoing_views(before).push((c, open_games_view(self.games()))));
                }
            }
            i = i + 1;
        }
        proof {
            assert(connected@.take(connected@.len() as int) =~= connected@);
        }
    }

    /// Answers a request from the user `sender`, given the users that are
    /// connected (in the order the server walks its connections). A request
    /// from a user that is not connected is ignored.
    ///
    /// - A selected cell is played in the first game with the id of the
    ///   game the sender last created or joined; both players then hear of
    ///   it (see `selected_views`).
    /// - A new game, with the id's text as id and the sender as host named
    ///   `host_name`, is added and recorded as the sender's game; the sender
    ///   is told to wait and every other connected user gets the list of
    ///   open games.
    /// - Joining puts the sender as client into the first game with the
    ///   given id and records it as the sender's game; both players get the
    ///   start message (see `start_views`).
    /// - A games request is answered with the list of open games.
    pub fn handle_request(&mut self, sender: u128, connected: &Vec<u128>, request: ClientRequest) -> (out: Vec<
        Outgoing,
    >)
        requires
            old(self).wf(),
        ensures
            final(self).wf(),
            !connected@.contains(sender) ==> final(self).games() == old(self).games() && out@.len() == 0
                && Lobby::same_assignments(old(self), final(self)),
            connected@.contains(sender) ==> match request {
                ClientRequest::CellSelected { coordinates } => {
                    &&& Lobby::same_assignments(old(self), final(self))
                    &&& match old(self).game_of(sender) {
                        Some(id) => {
                    &&& forall|i: int|
                        first_with_id(old(self).games(), id, i) ==> {
                            &&& final(self).games().len() == old(self).games().len()
                            &&& forall|j: int|
                                0 <= j < old(self).games().len() && j != i ==> #[trigger] final(self).games()[j]
                                    == old(self).games()[j]
                            &&& final(self).games()[i].id() == old(self).games()[i].id()
                            &&& final(self).games()[i].host() == old(self).games()[i].host()
                            &&& final(self).games()[i].client() == old(self).games()[i].client()
                            &&& selected_by_player(
                                old(self).games()[i].multi_game(),
                                Point { x: coordinates.x, y: coordinates.y },
                                final(self).games()[i].multi_game(),
                            )
                            &&& outgoing_views(out@) == selected_views(
                                final(self).games()[i],
                                coordinates,
                                sender,
                                connected@,
                            )
                        }
                    &&& (forall|j: int|
                        0 <= j < old(self).games().len() ==> (#[trigger] old(self).games()[j]).id() != id)
                        ==> final(self).games() == old(self).games() && out@.len() == 0
                        },
                        None => final(self).games() == old(self).games() && out@.len() == 0,
                    }
                },
                ClientRequest::CreateGame { host_name, difficulty, game_id } => {
                    let g = final(self).games().last();
                    &&& final(self).games().len() == old(self).games().len() + 1
                    &&& final(self).games().drop_last() == old(self).games()
                    &&& g.id() == uuid_text(game_id)
                    &&& g.host() == sender
                    &&& g.client() is None
                    &&& g.multi_game().local_player.name == host_name
                    &&& g.multi_game().remote_player.name@.len() == 0
                    &&& g.multi_game().local_player.is_active
                    &&& !g.multi_game().remote_player.is_active
                    &&& g.multi_game().local_player.mines_found@.len() == 0
                    &&& g.multi_game().remote_player.mines_found@.len() == 0
                    &&& g.multi_game().game.difficulty == difficulty
                    &&& g.multi_game().game.total_mines == crate::game::mines_for(difficulty)
                    &&& g.multi_game().game.board.dims() == crate::game::size_for(difficulty)
                    &&& crate::board::count_mines(g.multi_game().game.board.cells@) == crate::game::mines_for(
                        difficulty,
                    )
                    &&& crate::board::numbers_consistent(
                        g.multi_game().game.board.dims(),
                        g.multi_game().game.board.cells@,
                    )
                    &&& forall|k: int|
                        0 <= k < g.multi_game().game.board.cells@.len() ==> (
                        #[trigger] g.multi_game().game.board.cells@[k]).state == crate::cell::CellState::Hidden
                    &&& outgoing_views(out@) == seq![
                        (sender, ServerMessageView::Simple { name: "waiting_enemy"@ }),
                    ] + broadcast_views(final(self).games(), sender, connected@)
                    &&& Lobby::reassigned(old(self), final(self), sender, Some(uuid_text(game_id)))
                },
                ClientRequest::JoinGame { game_id, client_name } => {
                    &&& forall|i: int|
                        first_with_id(old(self).games(), game_id@, i) ==> {
                            let before = old(self).games()[i];
                            let after = final(self).games()[i];
                            &&& final(self).games().len() == old(self).games().len()
                            &&& forall|j: int|
                                0 <= j < old(self).games().len() && j != i ==> #[trigger] final(self).games()[j]
                                    == old(self).games()[j]
                            &&& after.id() == before.id()
                            &&& after.host() == before.host()
                            &&& after.client() == Some(sender)
                            &&& after.multi_game().game == before.multi_game().game
                            &&& after.multi_game().local_player.name == before.multi_game().local_player.name
                            &&& after.multi_game().remote_player.name == client_name
                            &&& after.multi_game().local_player.id@ == uuid_text(before.host())
                            &&& after.multi_game().remote_player.id@ == uuid_text(sender)
                            &&& after.multi_game().local_player.is_active
                                == before.multi_game().local_player.is_active
                            &&& after.multi_game().remote_player.is_active
                                == before.multi_game().remote_player.is_active
                            &&& after.multi_game().local_player.mines_found
                                == before.multi_game().local_player.mines_found
                            &&& after.multi_game().remote_player.mines_found
                                == before.multi_game().remote_player.mines_found
                            &&& outgoing_views(out@) == start_views(after, connected@)
                            &&& Lobby::reassigned(old(self), final(self), sender, Some(game_id@))
                        }
                    &&& (forall|j: int|
                        0 <= j < old(self).games().len() ==> (#[trigger] old(self).games()[j]).id() != game_id@)
                        ==> final(self).games() == old(self).games() && out@.len() == 0
                        && Lobby::same_assignments(old(self), final(self))
                },
                ClientRequest::GamesRequest => {
                    &&& final(self).games() == old(self).games()
                    &&& Lobby::same_assignments(old(self), final(self))
                    &&& outgoing_views(out@) == seq![(sender, open_games_view(old(self).games()))]
                },
                ClientRequest::Other => final(self).games() == old(self).games() && out@.len() == 0
                    && Lobby::same_assignments(old(self), final(self)),
            },
    {
        let mut out: Vec<Outgoing> = Vec::new();
        if !contains_id(connected, sender) {
            return out;
        }
        match request {
            ClientRequest::CellSelected { coordinates } => {
                let p = Point { x: coordinates.x, y: coordinates.y };
                let index = match self.assigned_game(sender) {
                    Some(id) => self.find_with_id(id),
                    None => None,
                };
                match index {
                    Some(i) => {
                        let ghost before = self.games@;
                        let mut game = self.games.remove(i);
                        game.player_selected(p);
                        self.games.insert(i, game);
                        proof {
                            assert forall|j: int| 0 <= j < self.games@.len() && j != i implies #[trigger] self.games@[j]
                                == before[j] by {
                                assert(self.games@[j] == before[j]);
                            }
                            assert forall|j: int| 0 <= j < self.games@.len() implies (#[trigger] self.games@[j]).wf() by {
                                if j != i {
                                    assert(self.games@[j] == before[j]);
                                }
                            }
                        }
                        out = Lobby::selected_messages(&self.games[i], coordinates, sender, connected);
                    },
                    None => {},
                }
            },
            ClientRequest::CreateGame { host_name, difficulty, game_id } => {
                let id_text = uuid_string(game_id);
                let mut game = Game::new(sender, id_text.as_str(), difficulty);
                game.set_local_name(host_name);
                let ghost before = self.games@;
                self.games.push(game);
                proof {
                    assert(self.games@.drop_last() =~= before);
                    assert forall|j: int| 0 <= j < self.games@.len() implies (#[trigger] self.games@[j]).wf() by {
                        if j < before.len() {
                            assert(self.games@[j] == before[j]);
                        }
                    }
                    reveal_strlit("waiting_enemy");
                }
                self.assign(sender, id_text);
                out.push(Outgoing { recipient: sender, message: ServerMessage::Simple(SimpleMessage::new("waiting_enemy")) });
                self.broadcast_open_games(sender, connected, &mut out);
            },
            ClientRequest::JoinGame { game_id, client_name } => {
                match self.find_with_id(&game_id) {
                    Some(i) => {
                        let ghost before = self.games@;
                        let mut game = self.games.remove(i);
                        game.set_client(sender, client_name);
                        game.setup_multi_game();
                        self.games.insert(i, game);
                        proof {
                            assert forall|j: int| 0 <= j < self.games@.len() && j != i implies #[trigger] self.games@[j]
                                == before[j] by {
                                assert(self.games@[j] == before[j]);
                            }
                            assert forall|j: int| 0 <= j < self.games@.len() implies (#[trigger] self.games@[j]).wf() by {
                                if j != i {
                                    assert(self.games@[j] == before[j]);
                                }
                            }
                        }
                        out = Lobby::start_messages(&self.games[i], connected);
                        self.assign(sender, game_id);
                    },
                    None => {},
                }
            },
            ClientRequest::GamesRequest => {
                let m = self.open_games();
                out.push(Outgoing { recipient: sender, message: ServerMessage::OpenGames(m) });
                proof {
                    assert(outgoing_views(out@) =~= seq![(sender, open_games_view(self.games@))]);
                }
            },
            ClientRequest::Other => {},
        }
        out
    }

    /// The user `id` has disconnected. If it hosts a game, the first such
    /// game is dropped and its client, if it has one, is told
    /// "host_disconnected"; otherwise, if it is the client of a game, the
    /// first such game loses its client and its host is told
    /// "client_disconnected". The game recorded for `id` is forgotten.
    pub fn remove_player(&mut self, id: u128) -> (out: Vec<Outgoing>)
        requires
            old(self).wf(),
        ensures
            final(self).wf(),
            Lobby::reassigned(old(self), final(self), id, None),
            forall|i: int|
                first_hosted_by(old(self).games(), id, i) ==> {
                    &&& final(self).games() == old(self).games().remove(i)
                    &&& outgoing_views(out@) == match old(self).games()[i].client() {
                        Some(c) => seq![(c, ServerMessageView::Simple { name: "host_disconnected"@ })],
                        None => Seq::empty(),
                    }
                },
            (forall|j: int| 0 <= j < old(self).games().len() ==> (#[trigger] old(self).games()[j]).host() != id)
                ==> {
                &&& forall|i: int|
                    first_joined_by(old(self).games(), id, i) ==> {
                        &&& final(self).games().len() == old(self).games().len()
                        &&& forall|j: int|
                            0 <= j < old(self).games().len() && j != i ==> #[trigger] final(self).games()[j]
                                == old(self).games()[j]
                        &&& final(self).games()[i].client() is None
                        &&& final(self).games()[i].id() == old(self).games()[i].id()
                        &&& final(self).games()[i].host() == old(self).games()[i].host()
                        &&& final(self).games()[i].multi_game() == old(self).games()[i].multi_game()
                        &&& outgoing_views(out@) == seq![
                            (old(self).games()[i].host(), ServerMessageView::Simple { name: "client_disconnected"@ }),
                        ]
                    }
                &&& (forall|j: int|
                    0 <= j < old(self).games().len() ==> (#[trigger] old(self).games()[j]).client() != Some(id))
                    ==> final(self).games() == old(self).games() && out@.len() == 0
            },
    {
        self.unassign(id);
        let mut out: Vec<Outgoing> = Vec::new();
        let mut i: usize = 0;
        while i < self.games.len()
            invariant
                i <= self.games@.len(),
                self.games@ == old(self).games(),
                Lobby::reassigned(old(self), self, id, None),
                old(self).wf(),
                out@.len() == 0,
                forall|j: int| 0 <= j < i ==> (#[trigger] self.games@[j]).host() != id,
            decreases self.games@.len() - i,
        {
            if *self.games[i].get_host() == id {
                let ghost before = self.games@;
                let ghost entering = *self;
                let removed = self.games.remove(i);
                proof {
                    assert forall|j: int| 0 <= j < self.games@.len() implies (#[trigger] self.games@[j]).wf() by {
                        if j < i {
                            assert(self.games@[j] == before[j]);
                        } else {
                            assert(self.games@[j] == before[j + 1]);
                        }
                    }
                    reveal_strlit("host_disconnected");
                }
                match removed.get_client() {
                    Some(c) => {
                        out.push(
                            Outgoing {
                                recipient: *c,
                                message: ServerMessage::Simple(SimpleMessage::new("host_disconnected")),
                            },
                        );
                        proof {
                            assert(outgoing_views(out@) =~= seq![
                                (*c, ServerMessageView::Simple { name: "host_disconnected"@ }),
                            ]);
                        }
                    },
                    None => {
                        proof {
                            assert(outgoing_views(out@) =~= Seq::empty());
                        }
                    },
                }
                proof {
                    assert forall|p: u128| #[trigger] self.game_of(p) == entering.game_of(p) by {}
                }
                return out;
            }
            i = i + 1;
        }
        let mut k: usize = 0;
        while k < self.games.len()
            invariant
                k <= self.games@.len(),
                self.games@ == old(self).games(),
                Lobby::reassigned(old(self), self, id, None),
                old(self).wf(),
                out@.len() == 0,
                forall|j: int| 0 <= j < self.games@.len() ==> (#[trigger] self.games@[j]).host() != id,
                forall|j: int| 0 <= j < k ==> (#[trigger] self.games@[j]).client() != Some(id),
            decreases self.games@.len() - k,
        {
            let is_client = match self.games[k].get_client() {
                Some(c) => *c == id,
                None => false,
            };
            if is_client {
                let ghost before = self.games@;
                let ghost entering = *self;
                let host = *self.games[k].get_host();
                let mut game = self.games.remove(k);
                game.remove_client();
                self.games.insert(k, game);
                proof {
                    assert forall|j: int| 0 <= j < self.games@.len() && j != k implies #[trigger] self.games@[j]
                        == before[j] by {
                        assert(self.games@[j] == before[j]);
                    }
                    assert(before[k as int].wf());
                    assert forall|j: int| 0 <= j < self.games@.len() implies (#[trigger] self.games@[j]).wf() by {
                        if j != k {
                            assert(self.games@[j] == before[j]);
                        }
                    }
                    reveal_strlit("client_disconnected");
                }
                out.push(
                    Outgoing { recipient: host, message: ServerMessage::Simple(SimpleMessage::new("client_disconnected")) },
                );
                proof {
                    assert(outgoing_views(out@) =~= seq![
                        (host, ServerMessageView::Simple { name: "client_disconnected"@ }),
                    ]);
                    assert forall|p: u128| #[trigger] self.game_of(p) == entering.game_of(p) by {}
                }
                return out;
            }
            k = k + 1;
        }
        out
    }
}

} // verus!
