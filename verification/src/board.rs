use vstd::prelude::*;
use crate::cell::{Cell, CellKind, CellState, hidden_mine, number_kind};
use crate::geometry::{Point, Size, random_in_range};
use crate::strings::{decimal, decimal_string};
use crate::grid::{
    Vec2, Vec2Iter, Vec2IterMut, area, flat_index, in_bounds, lemma_flat_index, lemma_point_at,
    neighbor_points, neighbor_safe, point_at,
};

verus! {

/// The number of mines in a sequence of cells.
pub open spec fn count_mines(s: Seq<Cell>) -> nat
    decreases s.len(),
{
    if s.len() == 0 {
        0
    } else {
        count_mines(s.drop_last()) + if s.last().kind == CellKind::Mine {
            1nat
        } else {
            0nat
        }
    }
}

/// The number of the given points that hold a mine in a grid of the given
/// size stored as `cells`.
pub open spec fn mines_among(size: Size, cells: Seq<Cell>, pts: Seq<Point>) -> nat
    decreases pts.len(),
{
    if pts.len() == 0 {
        0
    } else {
        mines_among(size, cells, pts.drop_last()) + if cells[flat_index(
            size,
            pts.last().x as int,
            pts.last().y as int,
        )].kind == CellKind::Mine {
            1nat
        } else {
            0nat
        }
    }
}

/// The number of mines around `p`.
pub open spec fn mines_around(size: Size, cells: Seq<Cell>, p: Point) -> nat {
    mines_among(size, cells, neighbor_points(size, p))
}

/// Two sequences of cells have their mines at the same places.
pub open spec fn same_mines(a: Seq<Cell>, b: Seq<Cell>) -> bool {
    &&& a.len() == b.len()
    &&& forall|i: int|
        0 <= i < a.len() ==> (#[trigger] a[i].kind == CellKind::Mine) == (b[i].kind == CellKind::Mine)
}

/// Every coordinate of a grid of this size survives the `i32` arithmetic
/// of the neighbour computation.
pub open spec fn fits_i32(size: Size) -> bool {
    size.width <= i32::MAX && size.height <= i32::MAX
}

/// Every cell that is not a mine shows the number of mines around it.
pub open spec fn numbers_consistent(size: Size, cells: Seq<Cell>) -> bool {
    forall|i: int|
        0 <= i < cells.len() && (#[trigger] cells[i]).kind != CellKind::Mine ==> cells[i].kind
            == number_kind(mines_around(size, cells, point_at(size, i)) as int)
}

/// A sequence holds no more mines than cells.
pub proof fn lemma_count_mines_bound(s: Seq<Cell>)
    ensures
        count_mines(s) <= s.len(),
    decreases s.len(),
{
    if s.len() > 0 {
        lemma_count_mines_bound(s.drop_last());
    }
}

/// A sequence without mines counts none.
pub proof fn lemma_count_mines_none(s: Seq<Cell>)
    requires
        forall|i: int| 0 <= i < s.len() ==> (#[trigger] s[i]).kind != CellKind::Mine,
    ensures
        count_mines(s) == 0,
    decreases s.len(),
{
    if s.len() > 0 {
        let t = s.drop_last();
        assert forall|i: int| 0 <= i < t.len() implies (#[trigger] t[i]).kind != CellKind::Mine by {
            assert(t[i] == s[i]);
        }
        lemma_count_mines_none(t);
    }
}

/// Turning one non-mine cell into a mine adds one to the mine count.
pub proof fn lemma_count_mines_update(s: Seq<Cell>, i: int, c: Cell)
    requires
        0 <= i < s.len(),
        s[i].kind != CellKind::Mine,
        c.kind == CellKind::Mine,
    ensures
        count_mines(s.update(i, c)) == count_mines(s) + 1,
    decreases s.len(),
{
    let t = s.update(i, c);
    if i == s.len() - 1 {
        assert(t.drop_last() =~= s.drop_last());
    } else {
        assert(t.drop_last() =~= s.drop_last().update(i, c));
        lemma_count_mines_update(s.drop_last(), i, c);
    }
}

/// Cells with mines at the same places hold the same number of mines.
pub proof fn lemma_count_mines_same(a: Seq<Cell>, b: Seq<Cell>)
    requires
        same_mines(a, b),
    ensures
        count_mines(a) == count_mines(b),
    decreases a.len(),
{
    if a.len() > 0 {
        assert(a[a.len() - 1].kind == CellKind::Mine <==> b[b.len() - 1].kind == CellKind::Mine);
        lemma_count_mines_same(a.drop_last(), b.drop_last());
    }
}

/// Cells with the same mines give the same counts over the same points.
pub proof fn lemma_mines_among_same(size: Size, a: Seq<Cell>, b: Seq<Cell>, pts: Seq<Point>)
    requires
        same_mines(a, b),
        forall|k: int|
            0 <= k < pts.len() ==> 0 <= #[trigger] flat_index(size, pts[k].x as int, pts[k].y as int)
                < a.len(),
    ensures
        mines_among(size, a, pts) == mines_among(size, b, pts),
    decreases pts.len(),
{
    if pts.len() > 0 {
        let k = pts.len() - 1;
        assert(0 <= flat_index(size, pts[k].x as int, pts[k].y as int) < a.len());
        let q = pts.drop_last();
        assert forall|m: int| 0 <= m < q.len() implies 0 <= #[trigger] flat_index(
            size,
            q[m].x as int,
            q[m].y as int,
        ) < a.len() by {
            assert(q[m] == pts[m]);
            assert(0 <= flat_index(size, pts[m].x as int, pts[m].y as int) < a.len());
        }
        lemma_mines_among_same(size, a, b, q);
    }
}

/// Cells with the same mines give the same count around any point.
pub proof fn lemma_mines_around_same(size: Size, a: Seq<Cell>, b: Seq<Cell>, p: Point)
    requires
        same_mines(a, b),
        a.len() == area(size),
    ensures
        mines_around(size, a, p) == mines_around(size, b, p),
{
    let pts = neighbor_points(size, p);
    lemma_neighbor_points(size, p);
    assert forall|k: int| 0 <= k < pts.len() implies 0 <= #[trigger] flat_index(
        size,
        pts[k].x as int,
        pts[k].y as int,
    ) < a.len() by {
        lemma_flat_index(size, pts[k].x as int, pts[k].y as int);
    }
    lemma_mines_among_same(size, a, b, pts);
}

/// Counting mines over a prefix one cell longer adds that cell.
pub proof fn lemma_count_take(s: Seq<Cell>, j: int)
    requires
        0 <= j < s.len(),
    ensures
        count_mines(s.take(j + 1)) == count_mines(s.take(j)) + if s[j].kind == CellKind::Mine {
            1nat
        } else {
            0nat
        },
{
    assert(s.take(j + 1).drop_last() =~= s.take(j));
}

/// Cell `k` is the `n`-th cell without a mine, counting from 0 in storage
/// order: it holds no mine and exactly `n` cells before it hold none.
pub open spec fn is_nth_free(cells: Seq<Cell>, n: int, k: int) -> bool {
    &&& 0 <= k < cells.len()
    &&& cells[k].kind != CellKind::Mine
    &&& k - count_mines(cells.take(k)) == n
}

/// The cells without a mine before position `j` never become fewer as `j`
/// grows, and grow past each cell without a mine.
proof fn lemma_free_before_grows(s: Seq<Cell>, a: int, b: int)
    requires
        0 <= a < b <= s.len(),
    ensures
        b - count_mines(s.take(b)) >= a - count_mines(s.take(a)) + if s[a].kind != CellKind::Mine {
            1int
        } else {
            0int
        },
    decreases b - a,
{
    lemma_count_take(s, b - 1);
    if a < b - 1 {
        lemma_free_before_grows(s, a, b - 1);
    }
}

/// Exactly one cell is the `n`-th cell without a mine.
pub proof fn lemma_nth_free_unique(cells: Seq<Cell>, n: int, a: int, b: int)
    requires
        is_nth_free(cells, n, a),
        is_nth_free(cells, n, b),
    ensures
        a == b,
{
    if a < b {
        lemma_free_before_grows(cells, a, b);
    }
    if b < a {
        lemma_free_before_grows(cells, b, a);
    }
}

/// At most `pts.len()` of the points hold a mine.
pub proof fn lemma_mines_among_bound(size: Size, cells: Seq<Cell>, pts: Seq<Point>)
    ensures
        mines_among(size, cells, pts) <= pts.len(),
    decreases pts.len(),
{
    if pts.len() > 0 {
        lemma_mines_among_bound(size, cells, pts.drop_last());
    }
}

/// A point has at most eight neighbours, all in bounds.
pub proof fn lemma_neighbor_points(size: Size, p: Point)
    ensures
        neighbor_points(size, p).len() <= 8,
        forall|k: int|
            0 <= k < neighbor_points(size, p).len() ==> in_bounds(
                size,
                (#[trigger] neighbor_points(size, p)[k]).x as int,
                neighbor_points(size, p)[k].y as int,
            ),
{
    reveal_with_fuel(crate::grid::neighbors_upto, 9);
}

/// How a cell is drawn in the board's text.
pub open spec fn cell_symbol(c: Cell) -> Seq<char> {
    match c.state {
        CellState::Hidden => "[ \u{25AE}]"@,
        CellState::Cleared => match c.kind {
            CellKind::Empty => "[  ]"@,
            CellKind::Number(n) => "[ "@ + decimal(n as nat) + "]"@,
            CellKind::Mine => "[ *]"@,
        },
        CellState::Flagged => "[ \u{1F6A9}]"@,
    }
}

/// The text of the first `k` cells: the symbols in storage order, with a
/// line break before each column but the first.
pub open spec fn cells_text(height: int, cells: Seq<Cell>, k: int) -> Seq<char>
    decreases k,
{
    if k <= 0 {
        Seq::empty()
    } else {
        cells_text(height, cells, k - 1) + (if k - 1 > 0 && (k - 1) % height == 0 {
            "\n"@
        } else {
            Seq::empty()
        }) + cell_symbol(cells[k - 1])
    }
}

/// The Minesweeper board.
#[derive(Debug, Clone)]
pub struct Board {
    pub cells: Vec2<Cell>,
}

impl Board {
    /// The board's grid holds one cell per position.
    pub open spec fn wf(&self) -> bool {
        self.cells.wf()
    }

    /// The dimensions of the board.
    pub open spec fn dims(&self) -> Size {
        self.cells.dims()
    }

    /// The cell at `(x, y)`.
    pub open spec fn cell(&self, x: int, y: int) -> Cell {
        self.cells.elem(x, y)
    }

    /// The number of mines around `p`.
    pub open spec fn mines_around(&self, p: Point) -> nat {
        mines_around(self.dims(), self.cells@, p)
    }

    /// A board of the given size whose cells are all hidden and empty.
    pub fn new_empty(size: Size) -> (b: Self)
        requires
            size.width * size.height <= usize::MAX,
        ensures
            b.wf(),
            b.dims() == size,
            forall|i: int|
                0 <= i < b.cells@.len() ==> #[trigger] b.cells@[i] == (Cell {
                    kind: CellKind::Empty,
                    state: CellState::Hidden,
                }),
    {
        let n = size.width * size.height;
        let cells = vec![Cell { kind: CellKind::Empty, state: CellState::Hidden }; n];
        Board::new_with_cells(Vec2::new(cells, size))
    }

    /// A board of the given size with `mines` mines placed at random and
    /// every other cell numbered with the count of mines around it; every
    /// cell is hidden.
    pub fn new(mines: usize, size: Size) -> (b: Self)
        requires
            mines <= size.width * size.height <= usize::MAX,
            fits_i32(size),
        ensures
            b.wf(),
            b.dims() == size,
            count_mines(b.cells@) == mines,
            numbers_consistent(size, b.cells@),
            forall|i: int|
                0 <= i < b.cells@.len() ==> (#[trigger] b.cells@[i]).state == CellState::Hidden,
    {
        let mut board = Board::new_empty(size);
        proof {
            lemma_count_mines_none(board.cells@);
        }
        let ghost empty = board.cells@;
        board.add_mines(mines);
        let ghost mined = board.cells@;
        board.add_cell_numbers();
        proof {
            lemma_count_mines_same(board.cells@, mined);
            assert forall|i: int| 0 <= i < board.cells@.len() implies (#[trigger] board.cells@[i]).state
                == CellState::Hidden by {
                assert(mined[i] == empty[i] || mined[i] == hidden_mine());
            }
        }
        board
    }

    /// A board over the given grid of cells.
    pub fn new_with_cells(cells: Vec2<Cell>) -> (b: Board)
        ensures
            b.cells == cells,
    {
        Board { cells }
    }

    /// Places `mines` more mines on cells that hold none, each on a free
    /// cell chosen uniformly at random: a random point is drawn, and when it
    /// already holds a mine the position of a free cell is drawn too; the
    /// mine then goes where `place_mine` puts it for those draws. Every
    /// other cell is left as it is; which cells receive the mines is chance.
    pub fn add_mines(&mut self, mines: usize) -> (r: &mut Self)
        requires
            old(self).wf(),
            count_mines(old(self).cells@) + mines <= old(self).cells@.len(),
        ensures
            r.wf(),
            r.dims() == old(self).dims(),
            count_mines(r.cells@) == count_mines(old(self).cells@) + mines,
            forall|i: int|
                0 <= i < r.cells@.len() ==> #[trigger] r.cells@[i] == old(self).cells@[i]
                    || r.cells@[i] == hidden_mine(),
            *final(self) == *final(r),
    {
        let ghost orig = self.cells@;
        let len = self.cells.get_width() * self.cells.get_height();
        let mut placed: usize = 0;
        let mut mine_count: usize = 0;
        proof {
            lemma_count_mines_bound(orig);
        }
        // Count the mines already on the board.
        let mut j: usize = 0;
        while j < len
            invariant
                self.wf(),
                self.cells@ == orig,
                len == orig.len(),
                j <= len,
                mine_count == count_mines(orig.take(j as int)),
            decreases len - j,
        {
            proof {
                lemma_count_take(orig, j as int);
                lemma_count_mines_bound(orig.take(j as int + 1));
            }
            let p = self.point_of(j);
            if self.cells.get_element(p).unwrap().is_mine() {
                mine_count = mine_count + 1;
            }
            j = j + 1;
        }
        assert(orig.take(len as int) =~= orig);
        while placed < mines
            invariant
                self.wf(),
                self.dims() == old(self).dims(),
                len == self.cells@.len(),
                placed <= mines,
                mine_count == count_mines(self.cells@),
                count_mines(self.cells@) == count_mines(orig) + placed,
                count_mines(orig) + mines <= len,
                forall|i: int|
                    0 <= i < self.cells@.len() ==> #[trigger] self.cells@[i] == orig[i]
                        || self.cells@[i] == hidden_mine(),
            decreases mines - placed,
        {
            let w = self.cells.get_width();
            let h = self.cells.get_height();
            proof {
                assert(w > 0 && h > 0) by (nonlinear_arith)
                    requires
                        w * h == len,
                        len > 0,
                        w >= 0,
                        h >= 0,
                ;
            }
            let p = Point::random_between(0..w, 0..h);
            let target = if self.cells.get_element(p).unwrap().is_mine() {
                random_in_range(0, len - mine_count)
            } else {
                0
            };
            self.place_mine(p, target);
            mine_count = mine_count + 1;
            placed = placed + 1;
        }
        self
    }

    /// Places one more mine from two drawn values: on the cell at `drawn`
    /// when it holds no mine, and otherwise on the `target`-th cell without
    /// a mine, counting from 0 in storage order. Every other cell is left as
    /// it is.
    pub fn place_mine(&mut self, drawn: Point, target: usize)
        requires
            old(self).wf(),
            in_bounds(old(self).dims(), drawn.x as int, drawn.y as int),
            target < old(self).cells@.len() - count_mines(old(self).cells@),
        ensures
            final(self).wf(),
            final(self).dims() == old(self).dims(),
            count_mines(final(self).cells@) == count_mines(old(self).cells@) + 1,
            forall|i: int|
                0 <= i < final(self).cells@.len() ==> #[trigger] final(self).cells@[i] == old(self).cells@[i]
                    || final(self).cells@[i] == hidden_mine(),
            old(self).cell(drawn.x as int, drawn.y as int).kind != CellKind::Mine ==> final(self).cells@
                == old(self).cells@.update(
                flat_index(old(self).dims(), drawn.x as int, drawn.y as int),
                hidden_mine(),
            ),
            old(self).cell(drawn.x as int, drawn.y as int).kind == CellKind::Mine ==> exists|k: int|
                is_nth_free(old(self).cells@, target as int, k) && final(self).cells@ == old(self).cells@.update(
                    k,
                    hidden_mine(),
                ),
    {
        let len = self.cells.get_width() * self.cells.get_height();
        let ghost cur = self.cells@;
        proof {
            lemma_count_mines_bound(cur);
            lemma_flat_index(self.dims(), drawn.x as int, drawn.y as int);
        }
        let c = *self.cells.get_element(drawn).unwrap();
        if !c.is_mine() {
            proof {
                lemma_count_mines_update(cur, flat_index(self.dims(), drawn.x as int, drawn.y as int), hidden_mine());
            }
            self.replace_cell(Cell::new_mine(), drawn);
        } else {
            self.place_mine_on_free_cell(target, len);
        }
    }

    /// Numbers every cell that is not a mine with the count of mines around
    /// it (as a fresh, hidden cell); mines are left as they are.
    pub fn add_cell_numbers(&mut self) -> (r: &mut Self)
        requires
            old(self).wf(),
            fits_i32(old(self).dims()),
        ensures
            r.wf(),
            r.dims() == old(self).dims(),
            same_mines(r.cells@, old(self).cells@),
            numbers_consistent(r.dims(), r.cells@),
            forall|i: int|
                0 <= i < r.cells@.len() ==> if old(self).cells@[i].kind == CellKind::Mine {
                    #[trigger] r.cells@[i] == old(self).cells@[i]
                } else {
                    r.cells@[i].state == CellState::Hidden
                },
            *final(self) == *final(r),
    {
        let ghost orig = self.cells@;
        let ghost size = self.dims();
        let len = self.cells.get_width() * self.cells.get_height();
        let mut i: usize = 0;
        while i < len
            invariant
                self.wf(),
                self.dims() == size,
                fits_i32(size),
                len == orig.len(),
                orig.len() == area(size),
                i <= len,
                same_mines(self.cells@, orig),
                forall|j: int|
                    0 <= j < i && orig[j].kind != CellKind::Mine ==> #[trigger] self.cells@[j] == (Cell {
                        kind: number_kind(mines_around(size, orig, point_at(size, j)) as int),
                        state: CellState::Hidden,
                    }),
                forall|j: int| i <= j < len ==> #[trigger] self.cells@[j] == orig[j],
                forall|j: int| 0 <= j < len && orig[j].kind == CellKind::Mine ==> #[trigger] self.cells@[j] == orig[j],
            decreases len - i,
        {
            let p = self.point_of(i);
            let c = *self.cells.get_element(p).unwrap();
            if !c.is_mine() {
                let n = self.count_mines_around_cell_at(p);
                proof {
                    lemma_mines_around_same(size, self.cells@, orig, p);
                    lemma_flat_index(size, p.x as int, p.y as int);
                }
                let ghost before = self.cells@;
                self.replace_cell(Cell::new_number(n), p);
                proof {
                    assert forall|j: int| 0 <= j < len implies (#[trigger] self.cells@[j].kind == CellKind::Mine)
                        == (orig[j].kind == CellKind::Mine) by {
                        if j != i {
                            assert(self.cells@[j] == before[j]);
                        } else {
                            assert(orig[j].kind != CellKind::Mine);
                        }
                    }
                }
            }
            i = i + 1;
        }
        proof {
            assert forall|j: int|
                0 <= j < self.cells@.len() && (#[trigger] self.cells@[j]).kind != CellKind::Mine implies self.cells@[j].kind
                == number_kind(mines_around(size, self.cells@, point_at(size, j)) as int) by {
                lemma_mines_around_same(size, self.cells@, orig, point_at(size, j));
            }
        }
        self
    }

    /// The number of mines around `coordinates`.
    fn count_mines_around_cell_at(&self, coordinates: Point) -> (n: u8)
        requires
            self.wf(),
            neighbor_safe(coordinates),
        ensures
            n == self.mines_around(coordinates),
    {
        let nbrs = self.cells.neighbors(coordinates);
        let ghost pts = neighbor_points(self.dims(), coordinates);
        proof {
            lemma_neighbor_points(self.dims(), coordinates);
        }
        let mut count: u8 = 0;
        let mut k: usize = 0;
        while k < nbrs.len()
            invariant
                self.wf(),
                nbrs@.len() == pts.len(),
                pts.len() <= 8,
                k <= nbrs@.len(),
                forall|i: int|
                    0 <= i < nbrs@.len() ==> {
                        &&& (#[trigger] nbrs@[i]).0 == pts[i]
                        &&& *nbrs@[i].1 == self.cell(nbrs@[i].0.x as int, nbrs@[i].0.y as int)
                    },
                count == mines_among(self.dims(), self.cells@, pts.take(k as int)),
                count <= k,
            decreases nbrs.len() - k,
        {
            assert(pts.take(k as int + 1).drop_last() =~= pts.take(k as int));
            let (_, cell) = nbrs[k];
            if cell.is_mine() {
                count = count + 1;
            }
            k = k + 1;
        }
        assert(pts.take(nbrs@.len() as int) =~= pts);
        count
    }

    /// The cell at `coordinates`, or `None` outside the board.
    pub fn cell_at(&self, coordinates: Point) -> (r: Option<&Cell>)
        requires
            self.wf(),
        ensures
            in_bounds(self.dims(), coordinates.x as int, coordinates.y as int) ==> r == Some(
                &self.cell(coordinates.x as int, coordinates.y as int),
            ),
            !in_bounds(self.dims(), coordinates.x as int, coordinates.y as int) ==> r.is_none(),
    {
        self.cells.get_element(coordinates)
    }

    /// The cell at `coordinates` for modification, or `None` outside the
    /// board.
    pub fn cell_mut_at(&mut self, coordinates: Point) -> (r: Option<&mut Cell>)
        requires
            old(self).wf(),
        ensures
            final(self).dims() == old(self).dims(),
            final(self).wf(),
            in_bounds(old(self).dims(), coordinates.x as int, coordinates.y as int) ==> (r matches Some(e)
                && *e == old(self).cell(coordinates.x as int, coordinates.y as int)
                && final(self).cells@ == old(self).cells@.update(
                flat_index(old(self).dims(), coordinates.x as int, coordinates.y as int),
                *final(e),
            )),
            !in_bounds(old(self).dims(), coordinates.x as int, coordinates.y as int) ==> (r is None
                && *final(self) == *old(self)),
    {
        self.cells.get_element_mut(coordinates)
    }

    pub fn get_width(&self) -> (w: usize)
        ensures
            w == self.dims().width,
    {
        self.cells.get_width()
    }

    pub fn get_height(&self) -> (h: usize)
        ensures
            h == self.dims().height,
    {
        self.cells.get_height()
    }

    pub fn get_size(&self) -> (s: Size)
        ensures
            s == self.dims(),
    {
        Size { width: self.get_width(), height: self.get_height() }
    }

    /// Overwrites the cell at `coordinates`; positions are checked as in
    /// `Vec2::replace_at`.
    pub fn replace_cell(&mut self, new_cell: Cell, coordinates: Point)
        requires
            coordinates.x * old(self).dims().height + coordinates.y <= usize::MAX,
        ensures
            final(self).dims() == old(self).dims(),
            ({
                let i = flat_index(old(self).dims(), coordinates.x as int, coordinates.y as int);
                if i < old(self).cells@.len() {
                    final(self).cells@ == old(self).cells@.update(i, new_cell)
                } else {
                    final(self).cells@ == old(self).cells@
                }
            }),
    {
        self.cells.replace_at(new_cell, coordinates);
    }

    /// An iterator over the cells and their coordinates.
    pub fn iter<'a>(&'a self) -> (it: Vec2Iter<'a, Cell>)
        requires
            self.wf(),
        ensures
            it.grid() == self.cells,
            it.consumed() == 0,
            it.wf(),
    {
        self.cells.iter()
    }

    /// An iterator handing out each cell for modification.
    pub fn iter_mut<'a>(&'a mut self) -> (it: Vec2IterMut<'a, Cell>)
        requires
            old(self).wf(),
        ensures
            it.grid() == old(self).cells,
            it.consumed() == 0,
            it.wf(),
            final(self).cells == *final(it.data),
    {
        self.cells.iter_mut()
    }

    /// The in-bounds neighbours of `coordinates` with their cells.
    pub fn neighbors(&self, coordinates: Point) -> (r: Vec<(Point, &Cell)>)
        requires
            self.wf(),
            neighbor_safe(coordinates),
        ensures
            r@.len() == neighbor_points(self.dims(), coordinates).len(),
            forall|i: int|
                0 <= i < r@.len() ==> {
                    &&& (#[trigger] r@[i]).0 == neighbor_points(self.dims(), coordinates)[i]
                    &&& *r@[i].1 == self.cell(r@[i].0.x as int, r@[i].0.y as int)
                },
    {
        self.cells.neighbors(coordinates)
    }

    /// The flat position of an in-bounds point.
    pub(crate) fn point_flat(&self, p: Point) -> (i: usize)
        requires
            self.wf(),
            in_bounds(self.dims(), p.x as int, p.y as int),
        ensures
            i == flat_index(self.dims(), p.x as int, p.y as int),
            i < self.cells@.len(),
    {
        proof {
            lemma_flat_index(self.dims(), p.x as int, p.y as int);
        }
        p.x * self.cells.get_height() + p.y
    }

    /// The board as text: one line per column, each cell drawn as
    /// `cell_symbol` says, and a final line break.
    pub fn to_string(&self) -> (s: String)
        requires
            self.wf(),
        ensures
            s@ == cells_text(self.dims().height as int, self.cells@, self.cells@.len() as int) + "\n"@,
    {
        let len = self.get_width() * self.get_height();
        let h = self.get_height();
        let mut s = String::new();
        let mut i: usize = 0;
        proof {
            reveal_strlit("\n");
            reveal_strlit("[ \u{25AE}]");
            reveal_strlit("[  ]");
            reveal_strlit("[ ");
            reveal_strlit("]");
            reveal_strlit("[ *]");
            reveal_strlit("[ \u{1F6A9}]");
        }
        while i < len
            invariant
                self.wf(),
                len == self.cells@.len(),
                h == self.dims().height,
                i <= len,
                s@ == cells_text(h as int, self.cells@, i as int),
            decreases len - i,
        {
            let p = self.point_of(i);
            let cell = *self.cell_at(p).unwrap();
            if i > 0 && i % h == 0 {
                s.append("\n");
            }
            match cell.state {
                CellState::Hidden => s.append("[ \u{25AE}]"),
                CellState::Cleared => match cell.kind {
                    CellKind::Empty => s.append("[  ]"),
                    CellKind::Number(number) => {
                        let digits = decimal_string(number as usize);
                        s.append("[ ");
                        s.append(digits.as_str());
                        s.append("]");
                    },
                    CellKind::Mine => s.append("[ *]"),
                },
                CellState::Flagged => s.append("[ \u{1F6A9}]"),
            }
            proof {
                assert(self.cells@[i as int] == cell);
            }
            i = i + 1;
        }
        s.append("\n");
        s
    }

    /// Turns the `target`-th cell without a mine, in storage order, into a
    /// hidden mine.
    fn place_mine_on_free_cell(&mut self, target: usize, len: usize)
        requires
            old(self).wf(),
            len == old(self).cells@.len(),
            count_mines(old(self).cells@) <= len,
            target < len - count_mines(old(self).cells@),
        ensures
            final(self).wf(),
            final(self).dims() == old(self).dims(),
            count_mines(final(self).cells@) == count_mines(old(self).cells@) + 1,
            exists|k: int|
                is_nth_free(old(self).cells@, target as int, k) && final(self).cells@ == old(self).cells@.update(
                    k,
                    hidden_mine(),
                ),
    {
        let ghost cur = self.cells@;
        let mut k: usize = 0;
        let mut seen: usize = 0;
        loop
            invariant_except_break
                self.cells@ == cur,
                k < len,
                seen == k - count_mines(cur.take(k as int)),
                seen <= target,
            invariant
                self.wf(),
                self.dims() == old(self).dims(),
                len == cur.len(),
                len == self.cells@.len(),
                cur == old(self).cells@,
                target < len - count_mines(cur),
            ensures
                count_mines(self.cells@) == count_mines(cur) + 1,
                exists|j: int| is_nth_free(cur, target as int, j) && self.cells@ == cur.update(j, hidden_mine()),
            decreases len - k,
        {
            proof {
                lemma_count_take(cur, k as int);
                lemma_count_mines_bound(cur.take(k as int + 1));
            }
            let p = self.point_of(k);
            let c = *self.cells.get_element(p).unwrap();
            if !c.is_mine() {
                if seen == target {
                    proof {
                        lemma_count_mines_update(cur, k as int, hidden_mine());
                    }
                    self.replace_cell(Cell::new_mine(), p);
                    assert(is_nth_free(cur, target as int, k as int));
                    break;
                }
                seen = seen + 1;
            }
            proof {
                if k + 1 == len {
                    assert(cur.take(len as int) =~= cur);
                }
            }
            k = k + 1;
        }
    }

    /// The point stored at flat position `i`.
    pub(crate) fn point_of(&self, i: usize) -> (p: Point)
        requires
            self.wf(),
            i < self.cells@.len(),
        ensures
            p == point_at(self.dims(), i as int),
            in_bounds(self.dims(), p.x as int, p.y as int),
            flat_index(self.dims(), p.x as int, p.y as int) == i,
            p.x * self.dims().height + p.y <= usize::MAX,
    {
        proof {
            lemma_point_at(self.dims(), i as int);
        }
        let h = self.cells.get_height();
        Point { x: i / h, y: i % h }
    }
}

} // verus!
