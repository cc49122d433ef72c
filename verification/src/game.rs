use vstd::prelude::*;
use crate::board::{Board, count_mines, fits_i32, lemma_neighbor_points, numbers_consistent};
use crate::cell::{Cell, CellKind, CellState, toggled};
use crate::geometry::{Point, Size};
use crate::grid::{
    area, flat_index, in_bounds, lemma_flat_index, lemma_point_at, neighbor_points, point_at,
};

verus! {

/// How large a game is and how many mines it hides.
pub struct GameConfiguration {
    pub mines_count: usize,
    pub size: Size,
}

/// The three levels a game can be played at.
#[derive(Debug, Clone, Copy, PartialEq, Eq, Structural, Default)]
pub enum Difficulty {
    #[default]
    Easy,
    Medium,
    Hard,
}

/// The number of mines of a level.
pub open spec fn mines_for(d: Difficulty) -> usize {
    match d {
        Difficulty::Easy => 11,
        Difficulty::Medium => 41,
        Difficulty::Hard => 99,
    }
}

/// The board size of a level.
pub open spec fn size_for(d: Difficulty) -> Size {
    match d {
        Difficulty::Easy => Size { width: 10, height: 10 },
        Difficulty::Medium => Size { width: 16, height: 16 },
        Difficulty::Hard => Size { width: 30, height: 16 },
    }
}

impl GameConfiguration {
    /// 11 mines on a 10 by 10 board.
    pub fn easy() -> (c: GameConfiguration)
        ensures
            c.mines_count == mines_for(Difficulty::Easy),
            c.size == size_for(Difficulty::Easy),
    {
        GameConfiguration { mines_count: 11, size: Size { height: 10, width: 10 } }
    }

    /// 41 mines on a 16 by 16 board.
    pub fn medium() -> (c: GameConfiguration)
        ensures
            c.mines_count == mines_for(Difficulty::Medium),
            c.size == size_for(Difficulty::Medium),
    {
        GameConfiguration { mines_count: 41, size: Size { height: 16, width: 16 } }
    }

    /// 99 mines on a board 30 wide and 16 high.
    pub fn hard() -> (c: GameConfiguration)
        ensures
            c.mines_count == mines_for(Difficulty::Hard),
            c.size == size_for(Difficulty::Hard),
    {
        GameConfiguration { mines_count: 99, size: Size { height: 16, width: 30 } }
    }

    fn configuration_for(difficulty: &Difficulty) -> (c: GameConfiguration)
        ensures
            c.mines_count == mines_for(*difficulty),
            c.size == size_for(*difficulty),
    {
        match difficulty {
            Difficulty::Easy => GameConfiguration::easy(),
            Difficulty::Medium => GameConfiguration::medium(),
            Difficulty::Hard => GameConfiguration::hard(),
        }
    }
}

/// The name of a level, as its `Debug` form writes it.
pub open spec fn difficulty_name(d: Difficulty) -> Seq<char> {
    match d {
        Difficulty::Easy => seq!['E', 'a', 's', 'y'],
        Difficulty::Medium => seq!['M', 'e', 'd', 'i', 'u', 'm'],
        Difficulty::Hard => seq!['H', 'a', 'r', 'd'],
    }
}

impl Difficulty {
    /// The configuration of this level.
    pub fn configuration(&self) -> (c: GameConfiguration)
        ensures
            c.mines_count == mines_for(*self),
            c.size == size_for(*self),
    {
        GameConfiguration::configuration_for(self)
    }

    /// The name of this level: "Easy", "Medium" or "Hard".
    pub fn to_string(&self) -> (s: String)
        ensures
            s@ == difficulty_name(*self),
    {
        let s = match self {
            Difficulty::Easy => "Easy",
            Difficulty::Medium => "Medium",
            Difficulty::Hard => "Hard",
        };
        proof {
            reveal_strlit("Easy");
            reveal_strlit("Medium");
            reveal_strlit("Hard");
        }
        String::from_str(s)
    }
}

/// The number of mines in a sequence of cells that are still hidden.
pub open spec fn count_hidden_mines(s: Seq<Cell>) -> nat
    decreases s.len(),
{
    if s.len() == 0 {
        0
    } else {
        count_hidden_mines(s.drop_last()) + if s.last().kind == CellKind::Mine && s.last().state
            == CellState::Hidden {
            1nat
        } else {
            0nat
        }
    }
}

/// Some mine has been uncovered.
pub open spec fn mine_uncovered(s: Seq<Cell>) -> bool {
    exists|i: int|
        0 <= i < s.len() && (#[trigger] s[i]).kind == CellKind::Mine && s[i].state == CellState::Cleared
}

proof fn lemma_hidden_take(s: Seq<Cell>, j: int)
    requires
        0 <= j < s.len(),
    ensures
        count_hidden_mines(s.take(j + 1)) == count_hidden_mines(s.take(j)) + if s[j].kind
            == CellKind::Mine && s[j].state == CellState::Hidden {
            1nat
        } else {
            0nat
        },
{
    assert(s.take(j + 1).drop_last() =~= s.take(j));
}

proof fn lemma_hidden_bound(s: Seq<Cell>)
    ensures
        count_hidden_mines(s) <= s.len(),
    decreases s.len(),
{
    if s.len() > 0 {
        lemma_hidden_bound(s.drop_last());
    }
}

/// A path of cells uncovered one from the other: it starts at `start`,
/// stays on the board, and every cell before the last is an unflagged
/// empty cell whose neighbours include the next one.
pub open spec fn reveal_path(size: Size, cells: Seq<Cell>, start: Point, path: Seq<Point>) -> bool {
    &&& path.len() >= 1
    &&& path[0] == start
    &&& forall|k: int|
        0 <= k < path.len() ==> in_bounds(size, (#[trigger] path[k]).x as int, path[k].y as int)
    &&& forall|k: int|
        0 <= k < path.len() - 1 ==> {
            let c = cells[flat_index(size, (#[trigger] path[k]).x as int, path[k].y as int)];
            &&& c.state != CellState::Flagged
            &&& c.kind == CellKind::Empty
            &&& neighbor_points(size, path[k]).contains(path[k + 1])
        }
}

/// `q` is reached from `start` by uncovering empty cells.
pub open spec fn reachable(size: Size, cells: Seq<Cell>, start: Point, q: Point) -> bool {
    exists|path: Seq<Point>| #[trigger] reveal_path(size, cells, start, path) && path.last() == q
}

/// Selecting `start` uncovers `q`: `q` is reached and carries no flag.
pub open spec fn revealed(size: Size, cells: Seq<Cell>, start: Point, q: Point) -> bool {
    &&& reachable(size, cells, start, q)
    &&& cells[flat_index(size, q.x as int, q.y as int)].state != CellState::Flagged
}

/// `after` is what selecting `start` makes of `before`: exactly the
/// revealed cells become cleared, and nothing else changes.
pub open spec fn selection(size: Size, before: Seq<Cell>, start: Point, after: Seq<Cell>) -> bool {
    &&& after.len() == before.len()
    &&& forall|i: int|
        0 <= i < before.len() ==> {
            &&& (#[trigger] after[i]).kind == before[i].kind
            &&& after[i].state == if revealed(size, before, start, point_at(size, i)) {
                CellState::Cleared
            } else {
                before[i].state
            }
        }
}

/// The number of `false` entries.
pub open spec fn count_false(s: Seq<bool>) -> nat
    decreases s.len(),
{
    if s.len() == 0 {
        0
    } else {
        count_false(s.drop_last()) + if !s.last() {
            1nat
        } else {
            0nat
        }
    }
}

proof fn lemma_count_false_update(s: Seq<bool>, i: int)
    requires
        0 <= i < s.len(),
        !s[i],
    ensures
        count_false(s.update(i, true)) + 1 == count_false(s),
    decreases s.len(),
{
    let t = s.update(i, true);
    if i == s.len() - 1 {
        assert(t.drop_last() =~= s.drop_last());
    } else {
        assert(t.drop_last() =~= s.drop_last().update(i, true));
        lemma_count_false_update(s.drop_last(), i);
    }
}

/// Every point of a path that starts at a visited point is visited when
/// the visited points are closed under stepping from an unflagged empty
/// cell to its neighbours.
proof fn lemma_path_visited(size: Size, cells: Seq<Cell>, start: Point, visited: Seq<bool>, path: Seq<Point>)
    requires
        reveal_path(size, cells, start, path),
        cells.len() == area(size),
        visited.len() == area(size),
        visited[flat_index(size, start.x as int, start.y as int)],
        forall|i: int|
            0 <= i < visited.len() && #[trigger] visited[i] && cells[i].state != CellState::Flagged
                && cells[i].kind == CellKind::Empty ==> forall|q: Point|
                #[trigger] neighbor_points(size, point_at(size, i)).contains(q) ==> visited[flat_index(
                    size,
                    q.x as int,
                    q.y as int,
                )],
    ensures
        visited[flat_index(size, path.last().x as int, path.last().y as int)],
    decreases path.len(),
{
    if path.len() > 1 {
        let prev = path.drop_last();
        assert forall|k: int| 0 <= k < prev.len() implies in_bounds(
            size,
            (#[trigger] prev[k]).x as int,
            prev[k].y as int,
        ) by {
            assert(prev[k] == path[k]);
        }
        assert forall|k: int| 0 <= k < prev.len() - 1 implies {
            let c = cells[flat_index(size, (#[trigger] prev[k]).x as int, prev[k].y as int)];
            &&& c.state != CellState::Flagged
            &&& c.kind == CellKind::Empty
            &&& neighbor_points(size, prev[k]).contains(prev[k + 1])
        } by {
            assert(prev[k] == path[k]);
            assert(prev[k + 1] == path[k + 1]);
        }
        lemma_path_visited(size, cells, start, visited, prev);
        let p = path[path.len() - 2];
        assert(p == prev.last());
        assert(in_bounds(size, p.x as int, p.y as int));
        lemma_flat_index(size, p.x as int, p.y as int);
        let i = flat_index(size, p.x as int, p.y as int);
        assert(visited[i]);
        assert(point_at(size, i) == p);
        assert(neighbor_points(size, point_at(size, i)).contains(path[path.len() - 1]));
    }
}

/// Each cell keeps what lies under it; a visited unflagged cell is cleared
/// and every other cell keeps its state.
pub open spec fn cells_inv(orig: Seq<Cell>, cells: Seq<Cell>, visited: Seq<bool>) -> bool {
    &&& cells.len() == orig.len()
    &&& visited.len() == orig.len()
    &&& forall|i: int|
        0 <= i < orig.len() ==> {
            &&& (#[trigger] cells[i]).kind == orig[i].kind
            &&& cells[i].state == if visited[i] && orig[i].state != CellState::Flagged {
                CellState::Cleared
            } else {
                orig[i].state
            }
        }
}

/// Every point waiting on the stack lies on the board and is reached.
pub open spec fn stack_inv(size: Size, orig: Seq<Cell>, start: Point, stack: Seq<Point>) -> bool {
    forall|j: int|
        0 <= j < stack.len() ==> {
            &&& in_bounds(size, (#[trigger] stack[j]).x as int, stack[j].y as int)
            &&& reachable(size, orig, start, stack[j])
        }
}

/// Every visited point is reached.
pub open spec fn visited_inv(size: Size, orig: Seq<Cell>, start: Point, visited: Seq<bool>) -> bool {
    forall|i: int| 0 <= i < visited.len() && #[trigger] visited[i] ==> reachable(size, orig, start, point_at(size, i))
}

/// Every neighbour of a visited, unflagged, empty cell is visited or
/// waiting on the stack.
#[verifier::opaque]
pub open spec fn closure_inv(size: Size, orig: Seq<Cell>, visited: Seq<bool>, stack: Seq<Point>) -> bool {
    forall|i: int|
        0 <= i < visited.len() && #[trigger] visited[i] && orig[i].state != CellState::Flagged && orig[i].kind
            == CellKind::Empty ==> forall|q: Point|
            #[trigger] neighbor_points(size, point_at(size, i)).contains(q) ==> visited[flat_index(
                size,
                q.x as int,
                q.y as int,
            )] || stack.contains(q)
}

/// From a flagged start, or from outside the board, nothing is revealed.
proof fn lemma_nothing_revealed(size: Size, orig: Seq<Cell>, start: Point)
    requires
        orig.len() == area(size),
        in_bounds(size, start.x as int, start.y as int) ==> orig[flat_index(
            size,
            start.x as int,
            start.y as int,
        )].state == CellState::Flagged,
    ensures
        forall|i: int| 0 <= i < orig.len() ==> !#[trigger] revealed(size, orig, start, point_at(size, i)),
{
    assert forall|i: int| 0 <= i < orig.len() implies !#[trigger] revealed(size, orig, start, point_at(size, i)) by {
        if reachable(size, orig, start, point_at(size, i)) {
            let path = choose|path: Seq<Point>| #[trigger]
                reveal_path(size, orig, start, path) && path.last() == point_at(size, i);
            assert(in_bounds(size, path[0].x as int, path[0].y as int));
            if path.len() == 1 {
                lemma_point_at(size, i);
                assert(point_at(size, i) == start);
            }
        }
    }
}

/// Visiting the cell at flat position `pi` keeps the cells in step with the
/// visited set.
proof fn lemma_visit(size: Size, orig: Seq<Cell>, before: Seq<Cell>, v0: Seq<bool>, start: Point, pi: int)
    requires
        cells_inv(orig, before, v0),
        0 <= pi < orig.len(),
        !v0[pi],
    ensures
        cells_inv(
            orig,
            before.update(
                pi,
                Cell {
                    kind: before[pi].kind,
                    state: if before[pi].state == CellState::Flagged {
                        CellState::Flagged
                    } else {
                        CellState::Cleared
                    },
                },
            ),
            v0.update(pi, true),
        ),
{
}

/// The closure property survives one step of the search: popping the
/// point at flat position `pi`, marking it visited, and pushing points.
proof fn lemma_closure_step(
    size: Size,
    orig: Seq<Cell>,
    v0: Seq<bool>,
    v1: Seq<bool>,
    s0: Seq<Point>,
    s1: Seq<Point>,
    pi: int,
)
    requires
        closure_inv(size, orig, v0, s0),
        orig.len() == area(size),
        v0.len() == orig.len(),
        0 <= pi < v0.len(),
        v1 == v0.update(pi, true),
        s0.len() >= 1,
        s0.last() == point_at(size, pi),
        s1.len() >= s0.len() - 1,
        s1.take(s0.len() - 1) == s0.drop_last(),
        !v0[pi] && orig[pi].state != CellState::Flagged && orig[pi].kind == CellKind::Empty ==> forall|q: Point|
            #[trigger] neighbor_points(size, point_at(size, pi)).contains(q) ==> v1[flat_index(
                size,
                q.x as int,
                q.y as int,
            )] || s1.contains(q),
    ensures
        closure_inv(size, orig, v1, s1),
{
    reveal(closure_inv);
    lemma_point_at(size, pi);
    let p = point_at(size, pi);
    assert forall|q: Point| #[trigger] s0.contains(q) implies v1[flat_index(size, q.x as int, q.y as int)]
        || s1.contains(q) by {
        let j = choose|j: int| 0 <= j < s0.len() && s0[j] == q;
        if j == s0.len() - 1 {
            assert(q == p);
        } else {
            assert(s1.take(s0.len() - 1)[j] == q);
            assert(s1[j] == q);
        }
    }
    assert forall|i: int|
        0 <= i < v1.len() && #[trigger] v1[i] && orig[i].state != CellState::Flagged && orig[i].kind
            == CellKind::Empty implies forall|q: Point|
        #[trigger] neighbor_points(size, point_at(size, i)).contains(q) ==> v1[flat_index(
            size,
            q.x as int,
            q.y as int,
        )] || s1.contains(q) by {
        assert forall|q: Point| #[trigger] neighbor_points(size, point_at(size, i)).contains(q) implies v1[flat_index(
            size,
            q.x as int,
            q.y as int,
        )] || s1.contains(q) by {
            lemma_neighbor_points(size, point_at(size, i));
            let pts = neighbor_points(size, point_at(size, i));
            let m = choose|m: int| 0 <= m < pts.len() && pts[m] == q;
            assert(in_bounds(size, pts[m].x as int, pts[m].y as int));
            lemma_flat_index(size, q.x as int, q.y as int);
            if i != pi || v0[pi] {
                assert(v0[i]);
                if !v0[flat_index(size, q.x as int, q.y as int)] {
                    assert(s0.contains(q));
                }
            }
        }
    }
}

/// The start stays visited or waiting through one step of the search.
proof fn lemma_start_kept(size: Size, start: Point, v0: Seq<bool>, s0: Seq<Point>, s1: Seq<Point>, pi: int)
    requires
        0 <= pi < v0.len(),
        0 <= flat_index(size, start.x as int, start.y as int) < v0.len(),
        v0[flat_index(size, start.x as int, start.y as int)] || s0.contains(start),
        s0.len() >= 1,
        flat_index(size, s0.last().x as int, s0.last().y as int) == pi,
        s1.len() >= s0.len() - 1,
        s1.take(s0.len() - 1) == s0.drop_last(),
    ensures
        v0.update(pi, true)[flat_index(size, start.x as int, start.y as int)] || s1.contains(start),
{
    if !v0[flat_index(size, start.x as int, start.y as int)] {
        let j = choose|j: int| 0 <= j < s0.len() && s0[j] == start;
        if j < s0.len() - 1 {
            assert(s1.take(s0.len() - 1)[j] == start);
            assert(s1[j] == start);
        }
    }
}

/// Pushes every neighbour of `point` that has not been visited.
fn push_unvisited_neighbors(
    board: &Board,
    point: Point,
    visited: &Vec<bool>,
    stack: &mut Vec<Point>,
    Ghost(orig): Ghost<Seq<Cell>>,
    Ghost(start): Ghost<Point>,
)
    requires
        board.wf(),
        fits_i32(board.dims()),
        in_bounds(board.dims(), point.x as int, point.y as int),
        orig.len() == area(board.dims()),
        visited@.len() == orig.len(),
        reachable(board.dims(), orig, start, point),
        orig[flat_index(board.dims(), point.x as int, point.y as int)].state != CellState::Flagged,
        orig[flat_index(board.dims(), point.x as int, point.y as int)].kind == CellKind::Empty,
        stack_inv(board.dims(), orig, start, old(stack)@),
    ensures
        stack_inv(board.dims(), orig, start, final(stack)@),
        final(stack)@.len() >= old(stack)@.len(),
        final(stack)@.take(old(stack)@.len() as int) == old(stack)@,
        forall|q: Point|
            #[trigger] neighbor_points(board.dims(), point).contains(q) ==> visited@[flat_index(
                board.dims(),
                q.x as int,
                q.y as int,
            )] || final(stack)@.contains(q),
{
    let ghost size = board.dims();
    let ghost p_path = choose|path: Seq<Point>| #[trigger]
        reveal_path(size, orig, start, path) && path.last() == point;
    let nbrs = board.neighbors(point);
    proof {
        lemma_neighbor_points(size, point);
    }
    let ghost pts = neighbor_points(size, point);
    let ghost s_init = stack@;
    let mut k: usize = 0;
    while k < nbrs.len()
        invariant
            board.wf(),
            size == board.dims(),
            orig.len() == area(size),
            visited@.len() == orig.len(),
            orig[flat_index(size, point.x as int, point.y as int)].state != CellState::Flagged,
            orig[flat_index(size, point.x as int, point.y as int)].kind == CellKind::Empty,
            reveal_path(size, orig, start, p_path),
            p_path.last() == point,
            nbrs@.len() == pts.len(),
            pts == neighbor_points(size, point),
            forall|m: int| 0 <= m < nbrs@.len() ==> (#[trigger] nbrs@[m]).0 == pts[m],
            forall|m: int| 0 <= m < pts.len() ==> in_bounds(size, (#[trigger] pts[m]).x as int, pts[m].y as int),
            k <= nbrs@.len(),
            stack@.len() >= s_init.len(),
            stack@.take(s_init.len() as int) == s_init,
            forall|m: int|
                0 <= m < k ==> visited@[flat_index(size, pts[m].x as int, pts[m].y as int)]
                    || stack@.contains(#[trigger] pts[m]),
            stack_inv(size, orig, start, stack@),
        decreases nbrs.len() - k,
    {
        let (q, _) = nbrs[k];
        proof {
            lemma_flat_index(size, q.x as int, q.y as int);
        }
        let qi = board.point_flat(q);
        let ghost prev_stack = stack@;
        if !visited[qi] {
            stack.push(q);
            proof {
                let np = p_path.push(q);
                assert(pts.contains(q)) by {
                    assert(pts[k as int] == q);
                }
                assert forall|m: int| 0 <= m < np.len() implies in_bounds(
                    size,
                    (#[trigger] np[m]).x as int,
                    np[m].y as int,
                ) by {
                    if m < p_path.len() {
                        assert(np[m] == p_path[m]);
                    }
                }
                assert forall|m: int| 0 <= m < np.len() - 1 implies {
                    let c = orig[flat_index(size, (#[trigger] np[m]).x as int, np[m].y as int)];
                    &&& c.state != CellState::Flagged
                    &&& c.kind == CellKind::Empty
                    &&& neighbor_points(size, np[m]).contains(np[m + 1])
                } by {
                    assert(np[m] == p_path[m]);
                    if m < p_path.len() - 1 {
                        assert(np[m + 1] == p_path[m + 1]);
                    } else {
                        assert(np[m] == point);
                        assert(np[m + 1] == q);
                    }
                }
                assert(reveal_path(size, orig, start, np));
                assert(np.last() == q);
                assert(stack@.take(s_init.len() as int) =~= prev_stack.take(s_init.len() as int));
                assert forall|j: int| 0 <= j < stack@.len() implies {
                    &&& in_bounds(size, (#[trigger] stack@[j]).x as int, stack@[j].y as int)
                    &&& reachable(size, orig, start, stack@[j])
                } by {
                    if j < prev_stack.len() {
                        assert(stack@[j] == prev_stack[j]);
                    }
                }
            }
        }
        proof {
            assert forall|m: int| 0 <= m < k + 1 implies visited@[flat_index(
                size,
                pts[m].x as int,
                pts[m].y as int,
            )] || stack@.contains(#[trigger] pts[m]) by {
                if m < k {
                    if !visited@[flat_index(size, pts[m].x as int, pts[m].y as int)] {
                        let j = choose|j: int| 0 <= j < prev_stack.len() && prev_stack[j] == pts[m];
                        assert(stack@[j] == pts[m]);
                    }
                } else {
                    if !visited@[qi as int] {
                        assert(stack@[stack@.len() - 1] == pts[m]);
                    }
                }
            }
        }
        k = k + 1;
    }
    proof {
        assert forall|q: Point| #[trigger] pts.contains(q) implies visited@[flat_index(
            size,
            q.x as int,
            q.y as int,
        )] || stack@.contains(q) by {
            let m = choose|m: int| 0 <= m < pts.len() && pts[m] == q;
        }
    }
}

/// A game of Minesweeper: the board, how many mines it hides, and its level.
#[derive(Debug, Clone)]
pub struct Game {
    pub board: Board,
    pub total_mines: usize,
    pub difficulty: Difficulty,
}

impl Game {
    /// The game's board holds one cell per position.
    pub open spec fn wf(&self) -> bool {
        self.board.wf()
    }

    /// A fresh game at the given level: a hidden board of the level's size
    /// with the level's number of mines placed at random and every other
    /// cell numbered with the count of mines around it.
    pub fn new(difficulty: Difficulty) -> (g: Game)
        ensures
            g.wf(),
            g.board.dims() == size_for(difficulty),
            g.total_mines == mines_for(difficulty),
            g.difficulty == difficulty,
            count_mines(g.board.cells@) == mines_for(difficulty),
            numbers_consistent(g.board.dims(), g.board.cells@),
            forall|i: int|
                0 <= i < g.board.cells@.len() ==> (#[trigger] g.board.cells@[i]).state
                    == CellState::Hidden,
    {
        let config = GameConfiguration::configuration_for(&difficulty);
        proof {
            assert(10 * 10 == 100 && 16 * 16 == 256 && 30 * 16 == 480) by (nonlinear_arith);
        }
        Game { board: Board::new(config.mines_count, config.size), total_mines: config.mines_count, difficulty }
    }

    pub fn get_board(&self) -> (b: &Board)
        ensures
            *b == self.board,
    {
        &self.board
    }

    /// The number of mines that are still hidden (neither uncovered nor
    /// flagged).
    pub fn remaining_mines(&self) -> (n: u32)
        requires
            self.wf(),
            count_hidden_mines(self.board.cells@) <= u32::MAX,
        ensures
            n == count_hidden_mines(self.board.cells@),
    {
        let ghost s = self.board.cells@;
        let len = self.board.get_width() * self.board.get_height();
        let mut count: u32 = 0;
        let mut i: usize = 0;
        while i < len
            invariant
                self.wf(),
                s == self.board.cells@,
                len == s.len(),
                i <= len,
                count == count_hidden_mines(s.take(i as int)),
                count_hidden_mines(s) <= u32::MAX,
            decreases len - i,
        {
            proof {
                lemma_hidden_take(s, i as int);
                lemma_hidden_prefix_bound(s, i as int + 1);
            }
            let p = self.board.point_of(i);
            let c = self.board.cell_at(p).unwrap();
            if c.is_mine() && c.is_hidden() {
                count = count + 1;
            }
            i = i + 1;
        }
        assert(s.take(len as int) =~= s);
        count
    }

    /// Puts a flag on, or takes it off, the cell at `coordinates`; a cleared
    /// cell and a point outside the board are left alone.
    pub fn toggle_flagged(&mut self, coordinates: Point)
        requires
            old(self).wf(),
        ensures
            final(self).wf(),
            final(self).total_mines == old(self).total_mines,
            final(self).difficulty == old(self).difficulty,
            final(self).board.dims() == old(self).board.dims(),
            in_bounds(old(self).board.dims(), coordinates.x as int, coordinates.y as int) ==> {
                let i = flat_index(old(self).board.dims(), coordinates.x as int, coordinates.y as int);
                final(self).board.cells@ == old(self).board.cells@.update(
                    i,
                    Cell { kind: old(self).board.cells@[i].kind, state: toggled(old(self).board.cells@[i].state) },
                )
            },
            !in_bounds(old(self).board.dims(), coordinates.x as int, coordinates.y as int) ==> final(self).board
                == old(self).board,
    {
        let cell = match self.board.cell_mut_at(coordinates) {
            Some(c) => c,
            None => {
                return;
            },
        };
        if cell.is_cleared() {
            return;
        }
        cell.toggle_flagged();
    }

    /// Uncovers the cell at `coordinates` and, from every uncovered empty
    /// cell, its neighbours, spreading until numbered cells or flags stop
    /// it. Exactly the cells `revealed` from `coordinates` end up cleared;
    /// flags and what lies under the cells do not change.
    pub fn selected_at(&mut self, coordinates: Point)
        requires
            old(self).wf(),
            fits_i32(old(self).board.dims()),
        ensures
            final(self).wf(),
            final(self).total_mines == old(self).total_mines,
            final(self).difficulty == old(self).difficulty,
            final(self).board.dims() == old(self).board.dims(),
            selection(old(self).board.dims(), old(self).board.cells@, coordinates, final(self).board.cells@),
    {
        let ghost size = self.board.dims();
        let ghost orig = self.board.cells@;
        // Do not select flagged cells, nor points outside the board.
        let start_flagged = match self.board.cell_at(coordinates) {
            Some(cell) => cell.is_flagged(),
            None => {
                proof {
                    lemma_nothing_revealed(size, orig, coordinates);
                }
                return;
            },
        };
        proof {
            lemma_flat_index(size, coordinates.x as int, coordinates.y as int);
        }
        if start_flagged {
            proof {
                lemma_nothing_revealed(size, orig, coordinates);
            }
            return;
        }
        let len = self.board.get_width() * self.board.get_height();
        let mut visited: Vec<bool> = vec![false; len];
        let mut stack: Vec<Point> = Vec::new();
        stack.push(coordinates);
        proof {
            let path = seq![coordinates];
            assert(reveal_path(size, orig, coordinates, path));
            assert(stack@[0] == coordinates);
            reveal(closure_inv);
        }
        while stack.len() > 0
            invariant
                self.wf(),
                self.board.dims() == size,
                self.total_mines == old(self).total_mines,
                self.difficulty == old(self).difficulty,
                fits_i32(size),
                orig.len() == area(size),
                len == orig.len(),
                visited@.len() == len,
                in_bounds(size, coordinates.x as int, coordinates.y as int),
                0 <= flat_index(size, coordinates.x as int, coordinates.y as int) < len,
                cells_inv(orig, self.board.cells@, visited@),
                stack_inv(size, orig, coordinates, stack@),
                visited_inv(size, orig, coordinates, visited@),
                visited@[flat_index(size, coordinates.x as int, coordinates.y as int)] || stack@.contains(
                    coordinates,
                ),
                closure_inv(size, orig, visited@, stack@),
            decreases count_false(visited@), stack@.len(),
        {
            let ghost s0 = stack@;
            let ghost v0 = visited@;
            let point = stack.pop().unwrap();
            proof {
                assert(s0[s0.len() - 1] == point);
                assert(in_bounds(size, point.x as int, point.y as int));
                lemma_flat_index(size, point.x as int, point.y as int);
            }
            let i = self.board.point_flat(point);
            proof {
                lemma_point_at(size, i as int);
            }
            proof {
                assert(stack@ =~= s0.drop_last());
                assert(stack@.take(s0.len() - 1) =~= s0.drop_last());
            }
            if visited[i] {
                proof {
                    assert(v0.update(i as int, true) =~= v0);
                    lemma_closure_step(size, orig, v0, visited@, s0, stack@, i as int);
                    lemma_start_kept(size, coordinates, v0, s0, stack@, i as int);
                }
                continue;
            }
            proof {
                lemma_count_false_update(visited@, i as int);
            }
            visited.set(i, true);
            let ghost before = self.board.cells@;
            let cell = self.board.cell_mut_at(point).unwrap();
            // Do not clear flagged cells
            if cell.is_flagged() {
                proof {
                    lemma_closure_step(size, orig, v0, visited@, s0, stack@, i as int);
                    lemma_start_kept(size, coordinates, v0, s0, stack@, i as int);
                    lemma_visit(size, orig, before, v0, coordinates, i as int);
                }
                continue;
            }
            cell.clear();
            let is_empty = cell.is_empty();
            proof {
                lemma_visit(size, orig, before, v0, coordinates, i as int);
            }
            if is_empty {
                push_unvisited_neighbors(&self.board, point, &visited, &mut stack, Ghost(orig), Ghost(coordinates));
            }
            proof {
                lemma_closure_step(size, orig, v0, visited@, s0, stack@, i as int);
                lemma_start_kept(size, coordinates, v0, s0, stack@, i as int);
            }
        }
        proof {
            reveal(closure_inv);
            assert forall|i: int| 0 <= i < len implies {
                &&& (#[trigger] self.board.cells@[i]).kind == orig[i].kind
                &&& self.board.cells@[i].state == if revealed(size, orig, coordinates, point_at(size, i)) {
                    CellState::Cleared
                } else {
                    orig[i].state
                }
            } by {
                lemma_point_at(size, i);
                let p = point_at(size, i);
                if reachable(size, orig, coordinates, p) {
                    let path = choose|path: Seq<Point>| #[trigger]
                        reveal_path(size, orig, coordinates, path) && path.last() == p;
                    lemma_path_visited(size, orig, coordinates, visited@, path);
                }
            }
        }
    }

    /// Some mine has been uncovered.
    pub fn is_game_over(&self) -> (b: bool)
        requires
            self.wf(),
        ensures
            b == mine_uncovered(self.board.cells@),
    {
        let ghost s = self.board.cells@;
        let len = self.board.get_width() * self.board.get_height();
        let mut i: usize = 0;
        while i < len
            invariant
                self.wf(),
                s == self.board.cells@,
                len == s.len(),
                i <= len,
                forall|j: int|
                    0 <= j < i ==> !((#[trigger] s[j]).kind == CellKind::Mine && s[j].state
                        == CellState::Cleared),
            decreases len - i,
        {
            let p = self.board.point_of(i);
            let c = self.board.cell_at(p).unwrap();
            if c.is_mine() && c.is_cleared() {
                return true;
            }
            i = i + 1;
        }
        false
    }

    /// Every mine is flagged and none has been uncovered.
    pub fn is_win(&self) -> (b: bool)
        requires
            self.wf(),
            count_hidden_mines(self.board.cells@) <= u32::MAX,
        ensures
            b == (count_hidden_mines(self.board.cells@) == 0 && !mine_uncovered(self.board.cells@)),
    {
        if self.remaining_mines() > 0 {
            return false;
        }
        !self.is_game_over()
    }

    /// Uncovers every cell that is not a mine.
    pub fn clear_all_non_mines(&mut self)
        requires
            old(self).wf(),
        ensures
            final(self).wf(),
            final(self).total_mines == old(self).total_mines,
            final(self).difficulty == old(self).difficulty,
            final(self).board.dims() == old(self).board.dims(),
            final(self).board.cells@.len() == old(self).board.cells@.len(),
            forall|i: int|
                0 <= i < old(self).board.cells@.len() ==> (#[trigger] final(self).board.cells@[i]) == if old(
                    self,
                ).board.cells@[i].kind == CellKind::Mine {
                    old(self).board.cells@[i]
                } else {
                    Cell { kind: old(self).board.cells@[i].kind, state: CellState::Cleared }
                },
    {
        let ghost orig = self.board.cells@;
        let len = self.board.get_width() * self.board.get_height();
        let mut i: usize = 0;
        while i < len
            invariant
                self.wf(),
                self.board.dims() == old(self).board.dims(),
                self.total_mines == old(self).total_mines,
                self.difficulty == old(self).difficulty,
                len == orig.len(),
                self.board.cells@.len() == len,
                i <= len,
                forall|j: int|
                    0 <= j < i ==> (#[trigger] self.board.cells@[j]) == if orig[j].kind == CellKind::Mine {
                        orig[j]
                    } else {
                        Cell { kind: orig[j].kind, state: CellState::Cleared }
                    },
                forall|j: int| i <= j < len ==> #[trigger] self.board.cells@[j] == orig[j],
            decreases len - i,
        {
            let p = self.board.point_of(i);
            let cell = self.board.cell_mut_at(p).unwrap();
            if !cell.is_cleared() && !cell.is_mine() {
                cell.clear();
            }
            i = i + 1;
        }
    }

    /// Uncovers every cell.
    pub fn clear_all(&mut self)
        requires
            old(self).wf(),
        ensures
            final(self).wf(),
            final(self).total_mines == old(self).total_mines,
            final(self).difficulty == old(self).difficulty,
            final(self).board.dims() == old(self).board.dims(),
            final(self).board.cells@.len() == old(self).board.cells@.len(),
            forall|i: int|
                0 <= i < old(self).board.cells@.len() ==> (#[trigger] final(self).board.cells@[i]) == (Cell {
                    kind: old(self).board.cells@[i].kind,
                    state: CellState::Cleared,
                }),
    {
        let ghost orig = self.board.cells@;
        let len = self.board.get_width() * self.board.get_height();
        let mut i: usize = 0;
        while i < len
            invariant
                self.wf(),
                self.board.dims() == old(self).board.dims(),
                self.total_mines == old(self).total_mines,
                self.difficulty == old(self).difficulty,
                len == orig.len(),
                self.board.cells@.len() == len,
                i <= len,
                forall|j: int|
                    0 <= j < i ==> (#[trigger] self.board.cells@[j]) == (Cell {
                        kind: orig[j].kind,
                        state: CellState::Cleared,
                    }),
                forall|j: int| i <= j < len ==> #[trigger] self.board.cells@[j] == orig[j],
            decreases len - i,
        {
            let p = self.board.point_of(i);
            let cell = self.board.cell_mut_at(p).unwrap();
            if !cell.is_cleared() {
                cell.clear();
            }
            i = i + 1;
        }
    }
}

proof fn lemma_hidden_prefix_bound(s: Seq<Cell>, j: int)
    requires
        0 <= j <= s.len(),
    ensures
        count_hidden_mines(s.take(j)) <= count_hidden_mines(s),
    decreases s.len() - j,
{
    if j < s.len() {
        lemma_hidden_take(s, j);
        lemma_hidden_prefix_bound(s, j + 1);
    } else {
        assert(s.take(j) =~= s);
    }
}

} // verus!
