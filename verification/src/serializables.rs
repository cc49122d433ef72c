use vstd::prelude::*;
use crate::board::Board;
use crate::cell::Cell;
use crate::game::{Difficulty, Game};
use crate::geometry::{Point, Size};
use crate::grid::{Vec2, area};

verus! {

/// A point as it travels in messages.
#[derive(Debug, Copy, Clone, PartialEq, Eq, Structural)]
pub struct SerializablePoint {
    pub x: usize,
    pub y: usize,
}

impl From<Point> for SerializablePoint {
    fn from(p: Point) -> (s: SerializablePoint) {
        SerializablePoint { x: p.x, y: p.y }
    }
}

impl vstd::std_specs::convert::FromSpecImpl<Point> for SerializablePoint {
    open spec fn obeys_from_spec() -> bool {
        true
    }

    open spec fn from_spec(p: Point) -> SerializablePoint {
        SerializablePoint { x: p.x, y: p.y }
    }
}

impl From<SerializablePoint> for Point {
    fn from(s: SerializablePoint) -> (p: Point) {
        Point { x: s.x, y: s.y }
    }
}

impl vstd::std_specs::convert::FromSpecImpl<SerializablePoint> for Point {
    open spec fn obeys_from_spec() -> bool {
        true
    }

    open spec fn from_spec(s: SerializablePoint) -> Point {
        Point { x: s.x, y: s.y }
    }
}

/// A cell as it travels in messages.
#[derive(Debug, Copy, Clone)]
pub struct SerializableCell(pub Cell);

/// A board as it travels in messages: its cells column by column, and its
/// dimensions.
#[derive(Debug, Clone)]
pub struct SerializableBoard {
    pub data: Vec<SerializableCell>,
    pub height: usize,
    pub width: usize,
}

/// The cells of a serialised board.
pub open spec fn plain_cells(data: Seq<SerializableCell>) -> Seq<Cell> {
    data.map_values(|c: SerializableCell| c.0)
}

impl SerializableBoard {
    /// The board's cells in storage order with its dimensions.
    pub fn from_board(board: &Board) -> (s: SerializableBoard)
        requires
            board.wf(),
        ensures
            plain_cells(s.data@) == board.cells@,
            s.height == board.dims().height,
            s.width == board.dims().width,
    {
        let size = board.get_size();
        let len = size.width * size.height;
        let mut data: Vec<SerializableCell> = Vec::new();
        let mut i: usize = 0;
        while i < len
            invariant
                board.wf(),
                size == board.dims(),
                len == board.cells@.len(),
                i <= len,
                plain_cells(data@) =~= board.cells@.take(i as int),
            decreases len - i,
        {
            let p = board.point_of(i);
            let c = *board.cell_at(p).unwrap();
            let ghost before = data@;
            data.push(SerializableCell(c));
            proof {
                assert(c == board.cells@[i as int]);
                assert(data@ == before.push(SerializableCell(c)));
                assert(plain_cells(data@) =~= plain_cells(before).push(c));
                assert(board.cells@.take(i as int + 1) =~= board.cells@.take(i as int).push(c));
            }
            i = i + 1;
        }
        assert(board.cells@.take(len as int) =~= board.cells@);
        SerializableBoard { data, height: size.height, width: size.width }
    }

    /// The board these cells and dimensions describe, or `None` when the
    /// number of cells is not `width * height`.
    pub fn to_board(&self) -> (b: Option<Board>)
        ensures
            b is Some <==> self.data@.len() == self.width * self.height,
            b matches Some(board) ==> {
                &&& board.wf()
                &&& board.cells@ == plain_cells(self.data@)
                &&& board.dims() == (Size { width: self.width, height: self.height })
            },
    {
        let len = self.data.len();
        let mut data: Vec<Cell> = Vec::new();
        let mut i: usize = 0;
        while i < len
            invariant
                len == self.data@.len(),
                i <= len,
                data@ =~= plain_cells(self.data@).take(i as int),
            decreases len - i,
        {
            let ghost before = data@;
            data.push(self.data[i].0);
            proof {
                assert(plain_cells(self.data@).take(i as int + 1) =~= plain_cells(self.data@).take(
                    i as int,
                ).push(self.data@[i as int].0));
            }
            i = i + 1;
        }
        assert(plain_cells(self.data@).take(len as int) =~= plain_cells(self.data@));
        if self.width == 0 || self.height == 0 {
            if len != 0 {
                return None;
            }
            assert(self.width * self.height == 0) by (nonlinear_arith)
                requires
                    self.width == 0 || self.height == 0,
            ;
        } else if self.height > len / self.width {
            proof {
                assert(self.width * self.height > len) by (nonlinear_arith)
                    requires
                        self.width > 0,
                        self.height > len / self.width,
                ;
            }
            return None;
        } else {
            proof {
                assert(self.height * self.width <= len) by (nonlinear_arith)
                    requires
                        self.width > 0,
                        self.height <= len / self.width,
                ;
            }
            if self.height * self.width != len {
                return None;
            }
        }
        let size = Size::new(self.height, self.width);
        Some(Board::new_with_cells(Vec2::new(data, size)))
    }
}

/// A game as it travels in messages.
#[derive(Debug, Clone)]
pub struct SerializableGame {
    pub board: SerializableBoard,
    pub total_mines: usize,
    pub difficulty: Difficulty,
}

impl SerializableGame {
    /// The game's board, mine count and level.
    pub fn from_game(game: &Game) -> (s: SerializableGame)
        requires
            game.wf(),
        ensures
            plain_cells(s.board.data@) == game.board.cells@,
            s.board.height == game.board.dims().height,
            s.board.width == game.board.dims().width,
            s.total_mines == game.total_mines,
            s.difficulty == game.difficulty,
    {
        SerializableGame {
            board: SerializableBoard::from_board(&game.board),
            total_mines: game.total_mines,
            difficulty: game.difficulty,
        }
    }

    /// The game this describes, or `None` when its board does not hold
    /// `width * height` cells.
    pub fn to_game(&self) -> (g: Option<Game>)
        ensures
            g is Some <==> self.board.data@.len() == self.board.width * self.board.height,
            g matches Some(game) ==> {
                &&& game.wf()
                &&& game.board.cells@ == plain_cells(self.board.data@)
                &&& game.board.dims() == (Size { width: self.board.width, height: self.board.height })
                &&& game.total_mines == self.total_mines
                &&& game.difficulty == self.difficulty
            },
    {
        match self.board.to_board() {
            Some(board) => Some(Game { board, total_mines: self.total_mines, difficulty: self.difficulty }),
            None => None,
        }
    }
}

/// A board's serialised form turns back into the same board: it holds
/// `width * height` cells (so `to_board` succeeds), the same cells, and the
/// same dimensions.
pub proof fn law_board_round_trip(board: Board, s: SerializableBoard)
    requires
        board.wf(),
        plain_cells(s.data@) == board.cells@,
        s.height == board.dims().height,
        s.width == board.dims().width,
    ensures
        s.data@.len() == s.width * s.height,
        plain_cells(s.data@) == board.cells@,
        (Size { width: s.width, height: s.height }) == board.dims(),
{
}

/// A point turned into its serialised form and back is the same point.
pub proof fn law_point_round_trip(p: Point)
    ensures
        ({
            let s = SerializablePoint { x: p.x, y: p.y };
            Point { x: s.x, y: s.y }
        }) == p,
{
}

} // verus!
