use minesweeper::board::Board;
use minesweeper::cell::{Cell, CellKind};
use minesweeper::game::{Difficulty, Game};
use minesweeper::geometry::{Point, Size};
use minesweeper::grid::Vec2;

#[test]
fn test_add_mines() {
    let mut board = Board::new_empty(Size { width: 2, height: 2 });
    board.add_mines(4).add_cell_numbers();
    let mine = board.cell_at(Point::zero());

    assert!(mine.unwrap().is_mine())
}

/// Get a board where the top-left cell must be a number.
fn get_board_with_number_top_left() -> Board {
    let board = Board::new(1, Size { width: 2, height: 2 });
    if let Some(cell) = board.cell_at(Point::zero()) {
        if cell.is_mine() {
            return get_board_with_number_top_left();
        }
    }
    board
}

#[test]
fn test_top_left_cell() {
    let board = get_board_with_number_top_left();
    let Some(cell) = board.cell_at(Point::zero()) else {
        panic!()
    };
    assert!(matches!(cell.kind, CellKind::Number(_)));
}

#[test]
fn test_get_cells_around_top_left_cell() {
    let board = Board::new(1, Size { width: 3, height: 3 });
    let cells = board.neighbors(Point::zero());
    assert_eq!(cells.len(), 3);
}

#[test]
fn test_get_cells_around_central_cell() {
    let board = Board::new(1, Size { width: 3, height: 3 });
    let cells = board.neighbors(Point { x: 1, y: 1 });
    assert_eq!(cells.len(), 8);
}

#[test]
fn test_get_cells_around_bottom_right_cell() {
    let board = Board::new(1, Size { width: 3, height: 3 });
    let cells = board.neighbors(Point { x: 2, y: 2 });
    assert_eq!(cells.len(), 3);
}

#[test]
fn test_is_gameover() {
    let mut game = Game::new(Difficulty::Easy);
    let mut it = game.board.iter_mut();
    while let Some((_, cell)) = it.next() {
        if cell.is_mine() {
            cell.clear();
        }
    }
    assert!(game.is_game_over());
}

#[test]
fn game_test_is_win() {
    let mut game = Game::new(Difficulty::Easy);
    let mut it = game.board.iter_mut();
    while let Some((_, cell)) = it.next() {
        if cell.is_mine() {
            cell.toggle_flagged();
        }
    }
    assert!(game.is_win());
}

#[test]
fn test_clear_white_cells() {
    let mut board = Board::new_empty(Size { width: 5, height: 5 });
    let mine_coordinates = Point { x: 2, y: 2 };
    board.replace_cell(Cell::new_mine(), mine_coordinates);
    board.add_cell_numbers();

    let mut game = Game { board, total_mines: 1, difficulty: Difficulty::Easy };

    game.selected_at(Point { x: 0, y: 4 });

    let mut it = game.board.iter();
    while let Some((_, cell)) = it.next() {
        if cell.is_mine() {
            assert!(!cell.is_cleared(), "Mine should NOT be cleared");
        } else {
            assert!(cell.is_cleared(), "Non mines should be cleared");
        }
    }
}

#[test]
fn test_difficulty_to_string() {
    let diff = Difficulty::Easy;
    assert_eq!(diff.to_string(), "Easy");
}

#[test]
fn test_neightbors() {
    let grid = Vec2::new(vec![1, 2, 3, 4, 5, 6, 7, 8, 9], Size::new(3, 3));
    let neighbors: Vec<_> = grid.neighbors(Point { x: 2, y: 2 });
    assert_eq!(neighbors.len(), 3);
}

#[test]
fn replace_at() {
    let mut grid = Vec2::new(vec![0, 0, 0, 0, 0, 0], Size::new(3, 2));
    grid.replace_at(1, Point { x: 0, y: 0 });

    let replaced = grid.get_element(Point::zero());

    assert_eq!(*replaced.unwrap(), 1);
}

#[test]
fn test_iter_mut() {
    let mut grid = Vec2::new(vec![1, 1, 1, 1, 1, 1], Size::new(3, 2));

    // Mutate every element
    let mut it = grid.iter_mut();
    while let Some((_, element)) = it.next() {
        *element = 2;
    }

    // Verify every element was set correctly
    let mut it = grid.iter();
    while let Some((point, element)) = it.next() {
        assert_eq!(*element, 2, "Mismatch at ({}, {})", point.x, point.y);
    }
}

#[test]
fn test_iter_mut_visits_all() {
    let mut grid = Vec2::new(vec![0, 0, 0, 0, 0, 0], Size::new(3, 2));
    let mut count = 0;

    let mut it = grid.iter_mut();
    while let Some((_, element)) = it.next() {
        *element += 1;
        count += 1
    }

    assert_eq!(count, 6, "Should visit exactly 6 elements");
    let mut it = grid.iter();
    while let Some((_, element)) = it.next() {
        assert_eq!(*element, 1, "Every element should have been visited exactly once");
    }
}

#[test]
fn test_drawing_hard() {
    let mut game = Game::new(Difficulty::Hard);
    game.clear_all();
    println!("{}", game.board.to_string());
}

#[test]
fn game() {
    let mut game = Game::new(Difficulty::Easy);
    assert!(!game.is_game_over());

    for x in 0..game.board.get_width() {
        if game.is_game_over() {
            break;
        }
        for y in 0..game.board.get_height() {
            if game.board.cell_at(Point { x, y }).unwrap().is_mine() {
                game.selected_at(Point { x, y });
                break;
            }
        }
    }
    let game_over = game.is_game_over();
    assert!(game_over);
}
