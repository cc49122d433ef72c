use minesweeper::board::Board;
use minesweeper::game::Difficulty;
use minesweeper::geometry::{Point, Size};
use minesweeper::multiplayer::Multiplayer;

fn coordinates_for_non_mine(board: &Board) -> Point {
    let mut coordinates_to_select = Point::zero();
    let mut it = board.iter();
    while let Some((coordinates, cell)) = it.next() {
        if !cell.is_mine() {
            coordinates_to_select = coordinates;
            break;
        }
    }
    coordinates_to_select
}

fn coordinates_for_mine(board: &Board) -> Point {
    let mut coordinates_to_select = Point::zero();
    let mut it = board.iter();
    while let Some((coordinates, cell)) = it.next() {
        if cell.is_mine() && !cell.is_cleared() {
            coordinates_to_select = coordinates;
            break;
        }
    }
    coordinates_to_select
}

#[test]
fn test_get_board_size() {
    let mult = Multiplayer::new("1", "2", Difficulty::Easy);

    assert_eq!(mult.get_board_dimentions(), Size { width: 10, height: 10 });
}

#[test]
fn test_total_mines_to_win() {
    let mult = Multiplayer::new("1", "2", Difficulty::Easy);
    assert_eq!(mult.total_mines_to_win(), 6);

    let mult = Multiplayer::new("1", "2", Difficulty::Medium);
    assert_eq!(mult.total_mines_to_win(), 21);

    let mult = Multiplayer::new("1", "2", Difficulty::Hard);
    assert_eq!(mult.total_mines_to_win(), 50);
}

#[test]
fn test_switch_player_after_selecting_non_mine() {
    let mut mult = Multiplayer::new("1", "2", Difficulty::Easy);
    assert_eq!(mult.current_player().name, "1");

    let mine = coordinates_for_non_mine(&mult.game.board);
    mult.player_selected(mine);

    assert_eq!(mult.current_player().name, "2");
}

#[test]
fn test_does_not_switch_player_after_selecting_mine() {
    let mut mult = Multiplayer::new("1", "2", Difficulty::Easy);
    assert_eq!(mult.current_player().name, "1");

    let mine = coordinates_for_mine(&mult.game.board);
    mult.player_selected(mine);

    assert_eq!(mult.current_player().name, "1");
}

#[test]
fn test_remaining_to_win() {
    let mut mult = Multiplayer::new("1", "2", Difficulty::Easy);
    assert_eq!(mult.current_player().name, "1");

    mult.player_selected(coordinates_for_mine(&mult.game.board));
    mult.player_selected(coordinates_for_mine(&mult.game.board));
    mult.player_selected(coordinates_for_mine(&mult.game.board));

    let to_win = mult.remaining_to_win();

    assert_eq!(to_win, 3);
}

#[test]
fn multiplayer_test_is_win() {
    let mut mult = Multiplayer::new("1", "2", Difficulty::Easy);
    assert_eq!(mult.current_player().name, "1");

    mult.player_selected(coordinates_for_mine(&mult.game.board));
    mult.player_selected(coordinates_for_mine(&mult.game.board));
    mult.player_selected(coordinates_for_mine(&mult.game.board));

    assert!(!mult.did_game_finish());

    mult.player_selected(coordinates_for_mine(&mult.game.board));
    mult.player_selected(coordinates_for_mine(&mult.game.board));
    mult.player_selected(coordinates_for_mine(&mult.game.board));

    assert!(mult.did_game_finish());
}

#[test]
fn test_is_win_second_player() {
    let mut mult = Multiplayer::new("1", "2", Difficulty::Easy);
    assert_eq!(mult.current_player().name, "1");

    mult.player_selected(coordinates_for_mine(&mult.game.board));
    mult.player_selected(coordinates_for_mine(&mult.game.board));
    mult.player_selected(coordinates_for_mine(&mult.game.board));
    mult.player_selected(coordinates_for_non_mine(&mult.game.board));

    assert!(!mult.did_game_finish());

    mult.player_selected(coordinates_for_mine(&mult.game.board));
    mult.player_selected(coordinates_for_mine(&mult.game.board));
    mult.player_selected(coordinates_for_mine(&mult.game.board));
    mult.player_selected(coordinates_for_mine(&mult.game.board));
    mult.player_selected(coordinates_for_mine(&mult.game.board));

    assert!(!mult.did_game_finish());

    mult.player_selected(coordinates_for_mine(&mult.game.board));

    assert!(mult.did_game_finish());
}

#[test]
fn test_player_winning() {
    let mut mult = Multiplayer::new("1", "2", Difficulty::Easy);
    assert!(mult.player_winning().is_none());

    mult.player_selected(coordinates_for_mine(&mult.game.board));

    assert_eq!(mult.player_winning().unwrap().name, "1");

    mult.player_selected(coordinates_for_non_mine(&mult.game.board));
    mult.player_selected(coordinates_for_mine(&mult.game.board));
    mult.player_selected(coordinates_for_mine(&mult.game.board));

    assert_eq!(mult.player_winning().unwrap().name, "2");
}
