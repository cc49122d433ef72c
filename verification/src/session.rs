use vstd::prelude::*;
use crate::board::fits_i32;
use crate::game::{Difficulty, Game as CoreGame, mines_for, size_for};
use crate::geometry::Point;
use crate::multiplayer::{Multiplayer, on_turn};

verus! {

/// The lower-case hexadecimal digit for `n`, which lies in `0..16`.
pub open spec fn hex_digit(n: int) -> char {
    if n < 10 {
        (48 + n) as char
    } else {
        (87 + n) as char
    }
}

/// The `k`-th of the 32 hexadecimal digits of `id`, the most significant
/// first.
pub open spec fn uuid_nibble(id: u128, k: int) -> int {
    (id as int / vstd::arithmetic::power::pow(16, (31 - k) as nat)) % 16
}

/// The hyphenated lower-case text of the UUID whose 128 bits are `id`:
/// its 32 hexadecimal digits, the most significant first, in groups of
/// 8, 4, 4, 4 and 12 joined by hyphens.
pub open spec fn uuid_text(id: u128) -> Seq<char> {
    Seq::new(
        36,
        |i: int|
            if i == 8 || i == 13 || i == 18 || i == 23 {
                '-'
            } else {
                let k = if i < 8 {
                    i
                } else if i < 13 {
                    i - 1
                } else if i < 18 {
                    i - 2
                } else if i < 23 {
                    i - 3
                } else {
                    i - 4
                };
                hex_digit(uuid_nibble(id, k))
            },
    )
}

/// The text of a UUID: `uuid::Uuid::from_u128(id).to_string()`, which
/// takes the 128 bits in big-endian order and writes them hyphenated in
/// lower case.
#[verifier::external_body]
pub(crate) fn uuid_string(id: u128) -> (s: String)
    ensures
        s@ == uuid_text(id),
{
    uuid::Uuid::from_u128(id).to_string()
}

/// A game as the server keeps it: its id, the host, the client once one
/// has joined, and the two-player game itself. Users are known by the 128
/// bits of their UUIDs.
#[derive(Debug)]
pub struct Game {
    id: String,
    host: u128,
    client: Option<u128>,
    multi_game: Multiplayer,
}

impl Game {
    pub closed spec fn id(&self) -> Seq<char> {
        self.id@
    }

    pub closed spec fn host(&self) -> u128 {
        self.host
    }

    pub closed spec fn client(&self) -> Option<u128> {
        self.client
    }

    pub closed spec fn multi_game(&self) -> Multiplayer {
        self.multi_game
    }

    /// The game's board holds one cell per position and its coordinates
    /// fit the neighbour arithmetic.
    pub open spec fn wf(&self) -> bool {
        &&& self.multi_game().wf()
        &&& fits_i32(self.multi_game().game.board.dims())
    }

    /// A game hosted by `player` under the given id, at the given level,
    /// with no client yet and both player names empty.
    pub fn new(player: u128, id: &str, difficulty: Difficulty) -> (g: Self)
        ensures
            g.wf(),
            g.id() == id@,
            g.host() == player,
            g.client() is None,
            g.multi_game().local_player.name@.len() == 0,
            g.multi_game().remote_player.name@.len() == 0,
            g.multi_game().local_player.is_active,
            !g.multi_game().remote_player.is_active,
            g.multi_game().local_player.mines_found@.len() == 0,
            g.multi_game().remote_player.mines_found@.len() == 0,
            g.multi_game().game.difficulty == difficulty,
            g.multi_game().game.total_mines == mines_for(difficulty),
            g.multi_game().game.board.dims() == size_for(difficulty),
            crate::board::count_mines(g.multi_game().game.board.cells@) == mines_for(difficulty),
            crate::board::numbers_consistent(g.multi_game().game.board.dims(), g.multi_game().game.board.cells@),
            forall|i: int|
                0 <= i < g.multi_game().game.board.cells@.len() ==> (#[trigger] g.multi_game().game.board.cells@[i]).state
                    == crate::cell::CellState::Hidden,
    {
        proof {
            reveal_strlit("");
        }
        Game { host: player, client: None, multi_game: Multiplayer::new("", "", difficulty), id: String::from_str(id) }
    }

    /// Names the host.
    pub fn set_local_name(&mut self, name: String)
        requires
            old(self).wf(),
        ensures
            final(self).wf(),
            final(self).id() == old(self).id(),
            final(self).host() == old(self).host(),
            final(self).client() == old(self).client(),
            final(self).multi_game() == (Multiplayer {
                local_player: crate::player::Player { name: name, ..old(self).multi_game().local_player },
                ..old(self).multi_game()
            }),
    {
        self.multi_game.local_player.name = name;
    }

    /// Gives each player the text of its user's UUID as id.
    pub fn setup_multi_game(&mut self)
        requires
            old(self).wf(),
            old(self).client() is Some,
        ensures
            final(self).wf(),
            final(self).id() == old(self).id(),
            final(self).host() == old(self).host(),
            final(self).client() == old(self).client(),
            final(self).multi_game().game == old(self).multi_game().game,
            final(self).multi_game().local_player.id@ == uuid_text(old(self).host()),
            final(self).multi_game().remote_player.id@ == uuid_text(old(self).client()->0),
            final(self).multi_game().local_player.name == old(self).multi_game().local_player.name,
            final(self).multi_game().remote_player.name == old(self).multi_game().remote_player.name,
            final(self).multi_game().local_player.is_active == old(self).multi_game().local_player.is_active,
            final(self).multi_game().remote_player.is_active == old(self).multi_game().remote_player.is_active,
            final(self).multi_game().local_player.mines_found == old(self).multi_game().local_player.mines_found,
            final(self).multi_game().remote_player.mines_found == old(
                self,
            ).multi_game().remote_player.mines_found,
    {
        self.multi_game.local_player.id = uuid_string(self.host);
        let client = self.client.unwrap();
        self.multi_game.remote_player.id = uuid_string(client);
    }

    pub fn get_inner_game(&self) -> (g: &CoreGame)
        ensures
            *g == self.multi_game().game,
    {
        &self.multi_game.game
    }

    pub fn get_id(&self) -> (s: &str)
        ensures
            s@ == self.id(),
    {
        self.id.as_str()
    }

    pub fn get_client(&self) -> (c: Option<&u128>)
        ensures
            c == match self.client() {
                Some(x) => Some(&x),
                None => None::<&u128>,
            },
    {
        self.client.as_ref()
    }

    /// Lets the user `client` join under `name`; the remote player takes
    /// the name and the text of the user's UUID as id.
    pub fn set_client(&mut self, client: u128, name: String)
        requires
            old(self).wf(),
        ensures
            final(self).wf(),
            final(self).id() == old(self).id(),
            final(self).host() == old(self).host(),
            final(self).client() == Some(client),
            final(self).multi_game().game == old(self).multi_game().game,
            final(self).multi_game().local_player == old(self).multi_game().local_player,
            final(self).multi_game().remote_player.name == name,
            final(self).multi_game().remote_player.id@ == uuid_text(client),
            final(self).multi_game().remote_player.is_active == old(self).multi_game().remote_player.is_active,
            final(self).multi_game().remote_player.mines_found == old(
                self,
            ).multi_game().remote_player.mines_found,
    {
        self.client = Some(client);
        self.multi_game.remote_player.name = name;
        self.multi_game.remote_player.id = uuid_string(client);
    }

    /// The client leaves; everything else stays.
    pub fn remove_client(&mut self)
        ensures
            final(self).client() is None,
            final(self).id() == old(self).id(),
            final(self).host() == old(self).host(),
            final(self).multi_game() == old(self).multi_game(),
    {
        self.client = None;
    }

    pub fn has_client(&self) -> (b: bool)
        ensures
            b == self.client() is Some,
    {
        self.client.is_some()
    }

    pub fn get_host(&self) -> (h: &u128)
        ensures
            *h == self.host(),
    {
        &self.host
    }

    pub fn get_host_name(&self) -> (s: &str)
        ensures
            s@ == self.multi_game().local_player.name@,
    {
        self.multi_game.local_player.name.as_str()
    }

    pub fn get_client_name(&self) -> (s: &str)
        ensures
            s@ == self.multi_game().remote_player.name@,
    {
        self.multi_game.remote_player.name.as_str()
    }

    pub fn get_difficulty(&self) -> (d: &Difficulty)
        ensures
            *d == self.multi_game().game.difficulty,
    {
        self.multi_game.get_difficulty()
    }

    /// The player on turn selects a cell, as `Multiplayer::player_selected`.
    pub fn player_selected(&mut self, coordinates: Point)
        requires
            old(self).wf(),
        ensures
            final(self).wf(),
            final(self).id() == old(self).id(),
            final(self).host() == old(self).host(),
            final(self).client() == old(self).client(),
            crate::multiplayer::selected_by_player(old(self).multi_game(), coordinates, final(self).multi_game()),
    {
        self.multi_game.player_selected(coordinates);
    }

    /// The player on turn has the id `player_id`.
    pub fn is_player_active(&self, player_id: &str) -> (b: bool)
        ensures
            b == (on_turn(self.multi_game().local_player, self.multi_game().remote_player).id@ == player_id@),
    {
        let id = String::from_str(player_id);
        self.multi_game.current_player().id == id
    }

    /// The host, then the client if there is one.
    pub fn get_players(&self) -> (v: Vec<&u128>)
        ensures
            v@.len() == if self.client() is Some {
                2int
            } else {
                1int
            },
            *v@[0] == self.host(),
            self.client() is Some ==> *v@[1] == self.client()->0,
    {
        let mut players = Vec::new();
        players.push(&self.host);
        if let Some(client) = &self.client {
            players.push(client);
        }
        players
    }

    /// `player` is the host or the client.
    pub fn has_player(&self, player: &u128) -> (b: bool)
        ensures
            b == (*player == self.host() || self.client() == Some(*player)),
    {
        let players = self.get_players();
        let mut i: usize = 0;
        while i < players.len()
            invariant
                i <= players@.len(),
                players@.len() == if self.client() is Some {
                    2int
                } else {
                    1int
                },
                *players@[0] == self.host(),
                self.client() is Some ==> *players@[1] == self.client()->0,
                forall|j: int| 0 <= j < i ==> *players@[j] != *player,
            decreases players@.len() - i,
        {
            if *players[i] == *player {
                return true;
            }
            i = i + 1;
        }
        false
    }
}

} // verus!
