use minesweeper::board::Board;
use minesweeper::cell::{Cell, CellKind, CellState};
use minesweeper::client::{
    get_ws_url, JoinGameAction, JoinGameForm, LabelRepresentable, Message, MinesBoomer, NewGameForm,
    NewGameFormAction, OpenGame, PlayerKind,
};
use minesweeper::game::{Difficulty, Game, GameConfiguration};
use minesweeper::geometry::{Point, Size};
use minesweeper::grid::Vec2;
use minesweeper::lobby::{ClientRequest, Lobby, ServerMessage};
use minesweeper::messages::{
    CellSelectedMessage, CreateGameMessage, GameDefinition, GameStartMessage, IdentificationMessage,
    JoinGameMessage, OpenGamesMessage, SimpleMessage,
};
use minesweeper::multiplayer::{Multiplayer, Outcome};
use minesweeper::player::Player;
use minesweeper::serializables::{SerializableBoard, SerializableGame, SerializablePoint};
use minesweeper::session::Game as Session;
use minesweeper::strings::{decimal_string, Strings};

/// A 3 by 3 board with one mine in the top-left corner, numbered.
fn corner_mine_board() -> Board {
    let mut board = Board::new_empty(Size { width: 3, height: 3 });
    board.replace_cell(Cell::new_mine(), Point { x: 0, y: 0 });
    board.add_cell_numbers();
    board
}

fn count_mines(board: &Board) -> usize {
    let mut n = 0;
    let mut it = board.iter();
    while let Some((_, c)) = it.next() {
        if c.is_mine() {
            n += 1;
        }
    }
    n
}

#[test]
fn write_then_read_gives_the_element_back() {
    let mut grid = Vec2::new(vec![0, 0, 0, 0, 0, 0], Size::new(2, 3));
    grid.replace_at(7, Point { x: 2, y: 1 });
    assert_eq!(*grid.get_element(Point { x: 2, y: 1 }).unwrap(), 7);
    assert_eq!(*grid.get_element(Point { x: 1, y: 1 }).unwrap(), 0);
    assert_eq!(*grid.get_element(Point { x: 2, y: 0 }).unwrap(), 0);
}

#[test]
fn element_written_through_get_element_mut_is_read_back() {
    let mut grid = Vec2::new(vec![0, 0, 0, 0], Size::new(2, 2));
    *grid.get_element_mut(Point { x: 1, y: 0 }).unwrap() = 5;
    assert_eq!(*grid.get_element(Point { x: 1, y: 0 }).unwrap(), 5);
    assert!(grid.get_element_mut(Point { x: 2, y: 0 }).is_none());
}

#[test]
fn out_of_bounds_reads_nothing() {
    let grid = Vec2::new(vec![1, 2, 3, 4, 5, 6], Size::new(2, 3));
    assert!(grid.get_element(Point { x: 3, y: 0 }).is_none());
    assert!(grid.get_element(Point { x: 0, y: 2 }).is_none());
}

#[test]
fn replace_past_the_storage_does_nothing_and_past_a_column_wraps() {
    let mut grid = Vec2::new(vec![0, 0, 0, 0], Size::new(2, 2));
    grid.replace_at(9, Point { x: 5, y: 0 });
    let mut it = grid.iter();
    while let Some((_, e)) = it.next() {
        assert_eq!(*e, 0);
    }
    // y = 2 in a grid of height 2 lands on the first cell of the next column.
    grid.replace_at(3, Point { x: 0, y: 2 });
    assert_eq!(*grid.get_element(Point { x: 1, y: 0 }).unwrap(), 3);
}

#[test]
fn iteration_walks_columns_in_storage_order() {
    let grid = Vec2::new(vec![10, 11, 12, 13, 14, 15], Size::new(3, 2));
    let mut it = grid.iter();
    let mut seen = vec![];
    while let Some((p, e)) = it.next() {
        seen.push((p.x, p.y, *e));
    }
    assert_eq!(seen, vec![(0, 0, 10), (0, 1, 11), (0, 2, 12), (1, 0, 13), (1, 1, 14), (1, 2, 15)]);
    assert!(it.next().is_none());
}

#[test]
fn iteration_over_an_empty_grid_yields_nothing() {
    let grid: Vec2<u8> = Vec2::new(vec![], Size::new(0, 4));
    let mut it = grid.iter();
    assert!(it.next().is_none());
}

#[test]
fn neighbors_are_the_adjacent_cells_in_offset_order() {
    let grid = Vec2::new(vec![0, 1, 2, 3, 4, 5, 6, 7, 8], Size::new(3, 3));
    let pts: Vec<(usize, usize)> = grid.neighbors(Point { x: 1, y: 1 }).iter().map(|(p, _)| (p.x, p.y)).collect();
    assert_eq!(pts, vec![(0, 0), (0, 1), (0, 2), (1, 0), (1, 2), (2, 0), (2, 1), (2, 2)]);
    let edge: Vec<(usize, usize, i32)> =
        grid.neighbors(Point { x: 0, y: 1 }).iter().map(|(p, e)| (p.x, p.y, **e)).collect();
    assert_eq!(edge, vec![(0, 0, 0), (0, 2, 2), (1, 0, 3), (1, 1, 4), (1, 2, 5)]);
}

#[test]
fn numbers_count_the_mines_around() {
    let board = corner_mine_board();
    assert!(board.cell_at(Point { x: 0, y: 0 }).unwrap().is_mine());
    assert!(matches!(board.cell_at(Point { x: 1, y: 1 }).unwrap().kind, CellKind::Number(1)));
    assert!(matches!(board.cell_at(Point { x: 0, y: 1 }).unwrap().kind, CellKind::Number(1)));
    assert!(board.cell_at(Point { x: 2, y: 2 }).unwrap().is_empty());
}

#[test]
fn new_board_holds_exactly_the_mines_asked_for() {
    for mines in [0, 1, 5, 12] {
        let board = Board::new(mines, Size { width: 4, height: 3 });
        assert_eq!(count_mines(&board), mines);
        let mut it = board.iter();
        while let Some((p, c)) = it.next() {
            assert!(c.is_hidden());
            if !c.is_mine() {
                let around = board.neighbors(p).iter().filter(|(_, n)| n.is_mine()).count();
                match c.kind {
                    CellKind::Empty => assert_eq!(around, 0),
                    CellKind::Number(n) => assert_eq!(n as usize, around),
                    CellKind::Mine => unreachable!(),
                }
            }
        }
    }
}

#[test]
fn configurations_of_the_levels() {
    let e = GameConfiguration::easy();
    assert_eq!((e.mines_count, e.size), (11, Size { width: 10, height: 10 }));
    let m = GameConfiguration::medium();
    assert_eq!((m.mines_count, m.size), (41, Size { width: 16, height: 16 }));
    let h = GameConfiguration::hard();
    assert_eq!((h.mines_count, h.size), (99, Size { width: 30, height: 16 }));
    assert_eq!(Difficulty::Hard.configuration().mines_count, 99);
    let g = Game::new(Difficulty::Medium);
    assert_eq!(g.total_mines, 41);
    assert_eq!(count_mines(&g.board), 41);
    assert_eq!(Difficulty::Medium.to_string(), "Medium");
    assert_eq!(Difficulty::Hard.to_string(), "Hard");
}

#[test]
fn toggling_a_flag_twice_restores_the_cell() {
    let mut game = Game { board: corner_mine_board(), total_mines: 1, difficulty: Difficulty::Easy };
    game.toggle_flagged(Point { x: 1, y: 1 });
    assert!(game.board.cell_at(Point { x: 1, y: 1 }).unwrap().is_flagged());
    game.toggle_flagged(Point { x: 1, y: 1 });
    assert!(game.board.cell_at(Point { x: 1, y: 1 }).unwrap().is_hidden());
    // A cleared cell cannot be flagged, and a point off the board is ignored.
    game.selected_at(Point { x: 1, y: 1 });
    game.toggle_flagged(Point { x: 1, y: 1 });
    assert!(game.board.cell_at(Point { x: 1, y: 1 }).unwrap().is_cleared());
    game.toggle_flagged(Point { x: 7, y: 7 });
}

#[test]
fn cell_toggle_keeps_cleared_cells() {
    let mut c = Cell::new(CellKind::Number(2));
    c.toggle_flagged();
    assert!(c.is_flagged());
    c.toggle_flagged();
    assert!(c.is_hidden());
    c.clear();
    c.toggle_flagged();
    assert!(c.is_cleared());
    assert!(Cell::new_number(0).is_empty());
    assert!(matches!(Cell::new_number(3).kind, CellKind::Number(3)));
}

#[test]
fn selecting_a_number_uncovers_it_alone() {
    let mut game = Game { board: corner_mine_board(), total_mines: 1, difficulty: Difficulty::Easy };
    game.selected_at(Point { x: 1, y: 0 });
    let mut it = game.board.iter();
    while let Some((p, c)) = it.next() {
        assert_eq!(c.is_cleared(), p == Point { x: 1, y: 0 });
    }
}

#[test]
fn selecting_an_empty_cell_spreads_but_stops_at_flags() {
    let mut game = Game { board: corner_mine_board(), total_mines: 1, difficulty: Difficulty::Easy };
    game.toggle_flagged(Point { x: 2, y: 0 });
    game.selected_at(Point { x: 2, y: 2 });
    assert!(game.board.cell_at(Point { x: 2, y: 0 }).unwrap().is_flagged());
    assert!(!game.board.cell_at(Point { x: 0, y: 0 }).unwrap().is_cleared());
    assert!(game.board.cell_at(Point { x: 1, y: 1 }).unwrap().is_cleared());
    assert!(game.board.cell_at(Point { x: 0, y: 2 }).unwrap().is_cleared());
    assert!(game.board.cell_at(Point { x: 1, y: 0 }).unwrap().is_cleared());
    assert!(!game.is_game_over());
}

#[test]
fn selecting_twice_changes_nothing_more() {
    let mut game = Game { board: corner_mine_board(), total_mines: 1, difficulty: Difficulty::Easy };
    game.selected_at(Point { x: 2, y: 2 });
    let once = game.board.to_string();
    game.selected_at(Point { x: 2, y: 2 });
    assert_eq!(game.board.to_string(), once);
}

#[test]
fn selecting_a_flagged_cell_or_off_the_board_does_nothing() {
    let mut game = Game { board: corner_mine_board(), total_mines: 1, difficulty: Difficulty::Easy };
    let before = game.board.to_string();
    game.selected_at(Point { x: 3, y: 0 });
    assert_eq!(game.board.to_string(), before);
    game.toggle_flagged(Point { x: 2, y: 2 });
    let flagged = game.board.to_string();
    game.selected_at(Point { x: 2, y: 2 });
    assert_eq!(game.board.to_string(), flagged);
}

#[test]
fn winning_and_losing() {
    let mut game = Game { board: corner_mine_board(), total_mines: 1, difficulty: Difficulty::Easy };
    assert_eq!(game.remaining_mines(), 1);
    assert!(!game.is_win());
    game.toggle_flagged(Point { x: 0, y: 0 });
    assert_eq!(game.remaining_mines(), 0);
    assert!(game.is_win());
    game.toggle_flagged(Point { x: 0, y: 0 });
    game.selected_at(Point { x: 0, y: 0 });
    assert!(game.is_game_over());
    assert!(!game.is_win());
}

#[test]
fn clear_all_non_mines_leaves_the_mines() {
    let mut game = Game { board: corner_mine_board(), total_mines: 1, difficulty: Difficulty::Easy };
    game.clear_all_non_mines();
    assert!(!game.is_game_over());
    assert!(game.board.cell_at(Point { x: 0, y: 0 }).unwrap().is_hidden());
    assert!(game.board.cell_at(Point { x: 2, y: 1 }).unwrap().is_cleared());
    game.clear_all();
    assert!(game.is_game_over());
}

#[test]
fn board_text() {
    let mut game = Game { board: corner_mine_board(), total_mines: 1, difficulty: Difficulty::Easy };
    game.toggle_flagged(Point { x: 0, y: 0 });
    game.selected_at(Point { x: 2, y: 2 });
    let text = game.board.to_string();
    assert_eq!(text, "[ \u{1F6A9}][ 1][  ]\n[ 1][ 1][  ]\n[  ][  ][  ]\n");
    let hidden = Board::new_empty(Size { width: 1, height: 2 });
    assert_eq!(hidden.to_string(), "[ \u{25AE}][ \u{25AE}]\n");
}

#[test]
fn players_take_turns_and_score_mines() {
    let board = corner_mine_board();
    let mut mult = Multiplayer::new_with_game(
        Game { board, total_mines: 1, difficulty: Difficulty::Easy },
        "Ann",
        "Bob",
    );
    assert_eq!(mult.current_player().name, "Ann");
    mult.player_selected(Point { x: 1, y: 0 });
    assert_eq!(mult.current_player().name, "Bob");
    assert!(mult.local_player.is_active != mult.remote_player.is_active);
    // Selecting an already cleared cell changes nothing.
    mult.player_selected(Point { x: 1, y: 0 });
    assert_eq!(mult.current_player().name, "Bob");
    // Bob finds the mine and keeps the turn.
    mult.player_selected(Point { x: 0, y: 0 });
    assert_eq!(mult.current_player().name, "Bob");
    assert_eq!(mult.remote_player.mines_found, vec![Point { x: 0, y: 0 }]);
    assert!(mult.remote_player.has_mine(Point { x: 0, y: 0 }));
    assert!(mult.game.board.cell_at(Point { x: 0, y: 0 }).unwrap().is_cleared());
    // Off the board nothing happens.
    mult.player_selected(Point { x: 9, y: 9 });
    assert_eq!(mult.remote_player.score(), 1);
    assert!(mult.did_game_finish());
    assert_eq!(mult.winner().unwrap().name, "Bob");
    assert_eq!(mult.player_winning().unwrap().name, "Bob");
    assert_eq!(mult.remaining_to_win(), 0);
}

#[test]
fn counts_to_win() {
    let mut mult = Multiplayer::new("1", "2", Difficulty::Easy);
    assert_eq!(mult.local_to_win(), 6);
    assert_eq!(mult.remaining_to_win(), 6);
    assert!(mult.winner().is_none());
    mult.remote_player.mines_found.push(Point { x: 0, y: 0 });
    mult.remote_player.mines_found.push(Point { x: 0, y: 1 });
    assert_eq!(mult.local_to_win(), 6);
    assert_eq!(mult.remaining_to_win(), 4);
    assert_eq!(mult.get_difficulty(), &Difficulty::Easy);
    assert_eq!(mult.get_board().get_size(), Size { width: 10, height: 10 });
    mult.current_player_mut().name = "Zed".to_string();
    assert_eq!(mult.local_player.name, "Zed");
}

#[test]
fn serialised_board_round_trip() {
    let board = corner_mine_board();
    let s = SerializableBoard::from_board(&board);
    assert_eq!((s.width, s.height, s.data.len()), (3, 3, 9));
    let back = s.to_board().unwrap();
    assert_eq!(back.to_string(), board.to_string());
    let p: SerializablePoint = Point { x: 4, y: 2 }.into();
    let q: Point = p.into();
    assert_eq!(q, Point { x: 4, y: 2 });
}

#[test]
fn malformed_serialised_board_is_refused() {
    let board = corner_mine_board();
    let mut s = SerializableBoard::from_board(&board);
    s.width = 4;
    assert!(s.to_board().is_none());
    let g = SerializableGame { board: s, total_mines: 1, difficulty: Difficulty::Easy };
    assert!(g.to_game().is_none());
}

#[test]
fn messages_carry_their_names() {
    assert_eq!(SimpleMessage::new("games_request").name, "games_request");
    let id = IdentificationMessage::new("u1".to_string());
    assert_eq!((id.name.as_str(), id.user_id.as_str()), ("user_identification", "u1"));
    let c = CellSelectedMessage::new(SerializablePoint { x: 1, y: 2 }, true, false);
    assert_eq!(c.name, "cell_selected");
    assert!(c.is_remote_sender && !c.is_active_player);
    assert_eq!(OpenGamesMessage::new(vec![]).name, "open_games");
    let cg = CreateGameMessage::new("Ann", Difficulty::Hard);
    assert_eq!((cg.name.as_str(), cg.game.host_name.as_str(), cg.game.id.as_str()), ("create_game", "Ann", ""));
    let j = JoinGameMessage::new("g1", "Bob");
    assert_eq!((j.name.as_str(), j.game_id.as_str(), j.client_name.as_str()), ("join_game", "g1", "Bob"));
    let d = GameDefinition::new("id", "host", Difficulty::Medium);
    assert_eq!((d.id.as_str(), d.host_name.as_str(), d.difficulty), ("id", "host", Difficulty::Medium));
    let game = Game { board: corner_mine_board(), total_mines: 1, difficulty: Difficulty::Easy };
    let start = GameStartMessage::new(&game, true, "Ann".to_string(), "Bob".to_string());
    assert_eq!(start.game_name, "Minesweeper");
    let back = start.get_game().unwrap();
    assert_eq!(back.board.to_string(), game.board.to_string());
    assert_eq!(back.total_mines, 1);
}

#[test]
fn strings_and_numbers() {
    assert_eq!(decimal_string(0), "0");
    assert_eq!(decimal_string(1234), "1234");
    assert_eq!(Strings::more_to_win_label(12), "12 more to win");
    assert_eq!(Strings::opponents_turn("Ann"), "Ann's turn");
    assert_eq!(Strings::your_turn(), "Your turn");
    assert_eq!(Strings::app_title(), "MinesBooMer!");
    assert_eq!(Strings::join_as_label(), "Join as...");
    assert_eq!(PlayerKind::Local.label(), "You");
    assert_eq!(PlayerKind::Remote.label(), "Remote");
    assert_eq!(Difficulty::Easy.label(), "Easy");
    assert_eq!(get_ws_url(), "ws://localhost:8000");
}

#[test]
fn random_points_stay_in_their_ranges() {
    for _ in 0..100 {
        let p = Point::random_between(3..5, 7..8);
        assert!(3 <= p.x && p.x < 5);
        assert_eq!(p.y, 7);
    }
}

#[test]
fn mines_land_only_on_free_cells() {
    // With every cell but one already a mine, the last mine must take it.
    let mut board = Board::new_empty(Size { width: 2, height: 2 });
    board.replace_cell(Cell::new_mine(), Point { x: 0, y: 0 });
    board.replace_cell(Cell::new_mine(), Point { x: 0, y: 1 });
    board.replace_cell(Cell::new_mine(), Point { x: 1, y: 1 });
    board.add_mines(1);
    assert!(board.cell_at(Point { x: 1, y: 0 }).unwrap().is_mine());
    assert_eq!(count_mines(&board), 4);
}

#[test]
fn session_players_and_ids() {
    let host = 0x1234u128;
    let client = 0xabcdu128;
    let mut g = Session::new(host, "game-1", Difficulty::Easy);
    assert_eq!(g.get_id(), "game-1");
    assert!(!g.has_client());
    assert_eq!(g.get_players(), vec![&host]);
    g.set_local_name("Ann".to_string());
    g.set_client(client, "Bob".to_string());
    g.setup_multi_game();
    assert_eq!(g.get_host_name(), "Ann");
    assert_eq!(g.get_client_name(), "Bob");
    assert_eq!(g.get_client(), Some(&client));
    assert!(g.has_player(&client) && g.has_player(&host) && !g.has_player(&7));
    let host_text = uuid::Uuid::from_u128(host).to_string();
    let client_text = uuid::Uuid::from_u128(client).to_string();
    assert!(g.is_player_active(&host_text));
    assert!(!g.is_player_active(&client_text));
    assert_eq!(*g.get_difficulty(), Difficulty::Easy);
    assert_eq!(g.get_inner_game().total_mines, 11);
    g.remove_client();
    assert!(!g.has_client());
    assert_eq!(*g.get_host(), host);
}

fn names(out: &[minesweeper::lobby::Outgoing]) -> Vec<(u128, String)> {
    out.iter()
        .map(|o| {
            let n = match &o.message {
                ServerMessage::Simple(m) => m.name.clone(),
                ServerMessage::OpenGames(m) => format!("{}:{}", m.name, m.games.len()),
                ServerMessage::CellSelected(m) => {
                    format!("{}:{}:{}", m.name, m.is_remote_sender, m.is_active_player)
                }
                ServerMessage::GameStart(m) => format!("start:{}:{}:{}", m.local_player, m.remote_player, m.is_active),
            };
            (o.recipient, n)
        })
        .collect()
}

#[test]
fn lobby_runs_a_game() {
    let (ann, bob, eve) = (1u128, 2u128, 3u128);
    let connected = vec![ann, bob, eve];
    let mut lobby = Lobby::new();

    let out = lobby.handle_request(
        ann,
        &connected,
        ClientRequest::CreateGame { host_name: "Ann".to_string(), difficulty: Difficulty::Easy, game_id: 42 },
    );
    assert_eq!(
        names(&out),
        vec![(ann, "waiting_enemy".to_string()), (bob, "open_games:1".to_string()), (eve, "open_games:1".to_string())]
    );
    let game_id = uuid::Uuid::from_u128(42).to_string();
    assert_eq!(game_id, "00000000-0000-0000-0000-00000000002a");
    let listed = lobby.open_games();
    assert_eq!(listed.games.len(), 1);
    assert_eq!(listed.games[0].id, game_id);
    assert_eq!(listed.games[0].host_name, "Ann");

    let out = lobby.handle_request(
        bob,
        &connected,
        ClientRequest::JoinGame { game_id: game_id.clone(), client_name: "Bob".to_string() },
    );
    assert_eq!(
        names(&out),
        vec![(ann, "start:Ann:Bob:true".to_string()), (bob, "start:Bob:Ann:false".to_string())]
    );
    assert_eq!(lobby.open_games().games.len(), 0);

    let out = lobby.handle_request(eve, &connected, ClientRequest::GamesRequest);
    assert_eq!(names(&out), vec![(eve, "open_games:0".to_string())]);

    // Ann plays; both players hear of it.
    let out = lobby.handle_request(
        ann,
        &connected,
        ClientRequest::CellSelected { coordinates: SerializablePoint { x: 0, y: 0 } },
    );
    assert_eq!(out.len(), 2);
    assert_eq!(out[0].recipient, ann);
    assert_eq!(out[1].recipient, bob);

    // A user in no game, or a user not connected, changes nothing.
    let out = lobby.handle_request(
        eve,
        &connected,
        ClientRequest::CellSelected { coordinates: SerializablePoint { x: 0, y: 0 } },
    );
    assert!(out.is_empty());
    let out = lobby.handle_request(9, &connected, ClientRequest::GamesRequest);
    assert!(out.is_empty());
    let out = lobby.handle_request(ann, &connected, ClientRequest::Other);
    assert!(out.is_empty());

    // The client leaves, then the host.
    let out = lobby.remove_player(bob);
    assert_eq!(names(&out), vec![(ann, "client_disconnected".to_string())]);
    assert_eq!(lobby.open_games().games.len(), 1);
    let out = lobby.remove_player(ann);
    assert!(out.is_empty());
    assert_eq!(lobby.games_list().len(), 0);
    assert!(lobby.remove_player(eve).is_empty());
}

#[test]
fn lobby_tells_the_client_when_the_host_leaves() {
    let (ann, bob) = (1u128, 2u128);
    let connected = vec![ann, bob];
    let mut lobby = Lobby::new();
    lobby.handle_request(
        ann,
        &connected,
        ClientRequest::CreateGame { host_name: "Ann".to_string(), difficulty: Difficulty::Easy, game_id: 7 },
    );
    let game_id = uuid::Uuid::from_u128(7).to_string();
    lobby.handle_request(bob, &connected, ClientRequest::JoinGame { game_id, client_name: "Bob".to_string() });
    let out = lobby.remove_player(ann);
    assert_eq!(names(&out), vec![(bob, "host_disconnected".to_string())]);
    assert_eq!(lobby.games_list().len(), 0);
}

#[test]
fn client_follows_the_server() {
    let mut client = MinesBoomer::new();
    let reply = client.handle_message(&Message::Text("connected".to_string()));
    assert_eq!(reply.unwrap().name, "games_request");
    assert!(client.handle_message(&Message::Text("waiting_enemy".to_string())).is_none());
    assert!(client.is_waiting_for_enemy());

    let game = Game { board: corner_mine_board(), total_mines: 1, difficulty: Difficulty::Easy };
    let start = GameStartMessage::new(&game, true, "Ann".to_string(), "Bob".to_string());
    assert!(client.handle_message(&Message::GameStarted(start)).is_none());
    assert!(!client.is_waiting_for_enemy());
    let g = client.get_game().as_ref().unwrap();
    assert_eq!(g.local_player.name, "Ann");
    assert!(g.local_player.is_active);

    // The player taps a number: the cell is played and announced.
    let sent = client.on_cell_tapped(Point { x: 1, y: 0 }).unwrap();
    assert_eq!(sent.name, "cell_selected");
    assert_eq!((sent.coordinates.x, sent.coordinates.y), (1, 0));

    // The server's echo sets the turn.
    let echo = CellSelectedMessage::new(SerializablePoint { x: 1, y: 0 }, false, false);
    assert!(client.handle_message(&Message::CellSelected(echo)).is_none());
    assert!(client.on_cell_tapped(Point { x: 2, y: 2 }).is_none());

    let reply = client.handle_message(&Message::Text("host_disconnected".to_string()));
    assert_eq!(reply.unwrap().name, "games_request");
    assert!(client.get_game().is_none());
    assert!(client.handle_message(&Message::Text("something".to_string())).is_none());
}

#[test]
fn message_log_text() {
    assert_eq!(Message::Text("hi".to_string()).to_string(), "hi");
    let c = CellSelectedMessage::new(SerializablePoint { x: 3, y: 14 }, true, true);
    assert_eq!(Message::CellSelected(c).to_string(), "Cell selected: (3, 14)");
    let o = OpenGamesMessage::new(vec![GameDefinition::new("a", "b", Difficulty::Easy)]);
    assert_eq!(Message::OpenGames(o).to_string(), "Open games list: 1");
}

#[test]
fn forms_decide_from_their_buttons() {
    let mut form = NewGameForm::new();
    form.set_name("   ".to_string());
    assert!(!form.can_create());
    assert!(matches!(form.handle_input(true, true), NewGameFormAction::Idle));
    form.set_name("  Ann ".to_string());
    form.select_difficulty(Difficulty::Hard);
    match form.handle_input(true, true) {
        NewGameFormAction::Create { name, difficulty } => {
            assert_eq!(name, "Ann");
            assert_eq!(difficulty, Difficulty::Hard);
        }
        _ => panic!(),
    }
    assert!(matches!(form.handle_input(false, false), NewGameFormAction::Cancel));
    form.set_name("\u{3000}\tZo e\u{a0}\n".to_string());
    match form.handle_input(true, true) {
        NewGameFormAction::Create { name, .. } => assert_eq!(name, "Zo e"),
        _ => panic!(),
    }

    let mut join = JoinGameForm::new();
    assert!(matches!(join.handle_input(true, true, true), JoinGameAction::Idle));
    let game = OpenGame { name: "Ann".to_string(), difficulty: Difficulty::Easy, game_id: "g1".to_string() };
    join.open(&game);
    assert!(join.is_open());
    join.set_name("Bob".to_string());
    assert!(join.can_join());
    match join.handle_input(false, true, true) {
        JoinGameAction::Join(id, name) => assert_eq!((id.as_str(), name.as_str()), ("g1", "Bob")),
        _ => panic!(),
    }
    assert!(!join.is_open());
    join.open(&game);
    assert!(matches!(join.handle_input(true, false, true), JoinGameAction::Cancel));
    join.open(&game);
    assert!(matches!(join.handle_input(false, false, false), JoinGameAction::Cancel));
    join.open(&game);
    join.reset();
    assert!(!join.is_open());
}

#[test]
fn player_starts_without_mines() {
    let p = Player::new("Zoe");
    assert_eq!(p.name, "Zoe");
    assert!(!p.is_active);
    assert_eq!(p.score(), 0);
    assert!(!p.has_mine(Point::zero()));
}

#[test]
fn winner_has_found_more_mines() {
    let mut mult = Multiplayer::new("Ann", "Bob", Difficulty::Easy);
    for y in 0..6 {
        mult.local_player.mines_found.push(Point { x: 0, y });
        mult.remote_player.mines_found.push(Point { x: 1, y });
    }
    // Both found half the mines: a tie has no winner.
    assert!(mult.did_game_finish());
    assert!(mult.winner().is_none());
    mult.remote_player.mines_found.truncate(3);
    assert_eq!(mult.winner().unwrap().name, "Ann");
    // Nobody has half the mines yet: no winner.
    mult.local_player.mines_found.truncate(2);
    assert!(!mult.did_game_finish());
    assert!(mult.winner().is_none());
    for y in 3..6 {
        mult.remote_player.mines_found.push(Point { x: 1, y });
    }
    assert!(mult.did_game_finish());
    assert_eq!(mult.winner().unwrap().name, "Bob");
}

#[test]
fn new_game_hides_every_mine() {
    for difficulty in [Difficulty::Easy, Difficulty::Medium, Difficulty::Hard] {
        let game = Game::new(difficulty);
        assert_eq!(game.remaining_mines() as usize, game.total_mines);
        assert!(!game.is_win());
        assert!(!game.is_game_over());
    }
}

#[test]
fn lobby_plays_in_the_game_last_created_or_joined() {
    let (ann, bob) = (1u128, 2u128);
    let connected = vec![ann, bob];
    let mut lobby = Lobby::new();
    lobby.handle_request(
        ann,
        &connected,
        ClientRequest::CreateGame { host_name: "Ann".to_string(), difficulty: Difficulty::Easy, game_id: 1 },
    );
    let first = uuid::Uuid::from_u128(1).to_string();
    lobby.handle_request(bob, &connected, ClientRequest::JoinGame { game_id: first, client_name: "Bob".to_string() });
    lobby.handle_request(
        ann,
        &connected,
        ClientRequest::CreateGame { host_name: "Ann".to_string(), difficulty: Difficulty::Easy, game_id: 2 },
    );
    // Ann's latest game has no client yet: only Ann hears of her move.
    let out = lobby.handle_request(
        ann,
        &connected,
        ClientRequest::CellSelected { coordinates: SerializablePoint { x: 0, y: 0 } },
    );
    assert_eq!(out.len(), 1);
    assert_eq!(out[0].recipient, ann);
    // Bob still plays in the first game, with Ann.
    let out = lobby.handle_request(
        bob,
        &connected,
        ClientRequest::CellSelected { coordinates: SerializablePoint { x: 1, y: 1 } },
    );
    assert_eq!(out.len(), 2);
    // Once Bob has left, his moves go nowhere.
    lobby.remove_player(bob);
    let out = lobby.handle_request(
        bob,
        &connected,
        ClientRequest::CellSelected { coordinates: SerializablePoint { x: 2, y: 2 } },
    );
    assert!(out.is_empty());
}

#[test]
fn place_mine_uses_the_drawn_values() {
    let mut board = Board::new_empty(Size { width: 2, height: 2 });
    // A free drawn cell takes the mine; the other draw is not used.
    board.place_mine(Point { x: 1, y: 0 }, 3);
    assert!(board.cell_at(Point { x: 1, y: 0 }).unwrap().is_mine());
    assert_eq!(count_mines(&board), 1);
    // A drawn cell that holds a mine sends it to the target-th free cell:
    // free cells in storage order are (0,0), (0,1), (1,1).
    board.place_mine(Point { x: 1, y: 0 }, 0);
    assert!(board.cell_at(Point { x: 0, y: 0 }).unwrap().is_mine());
    board.place_mine(Point { x: 0, y: 0 }, 1);
    assert!(board.cell_at(Point { x: 1, y: 1 }).unwrap().is_mine());
    assert!(!board.cell_at(Point { x: 0, y: 1 }).unwrap().is_mine());
    assert_eq!(count_mines(&board), 3);
}

#[test]
fn outcome_tells_how_the_game_stands() {
    let mut mult = Multiplayer::new("Ann", "Bob", Difficulty::Easy);
    assert!(matches!(mult.outcome(), Outcome::Playing(6)));
    mult.local_player.mines_found.push(Point { x: 0, y: 0 });
    assert!(matches!(mult.outcome(), Outcome::Playing(5)));
    for y in 1..6 {
        mult.local_player.mines_found.push(Point { x: 0, y });
    }
    match mult.outcome() {
        Outcome::Won(p) => assert_eq!(p.name, "Ann"),
        _ => panic!(),
    }
    for y in 0..6 {
        mult.remote_player.mines_found.push(Point { x: 1, y });
    }
    assert!(matches!(mult.outcome(), Outcome::Draw));
    let mut past = Multiplayer::new("Ann", "Bob", Difficulty::Easy);
    for y in 0..7 {
        past.local_player.mines_found.push(Point { x: 0, y });
    }
    assert!(matches!(past.outcome(), Outcome::PastHalf));
}
