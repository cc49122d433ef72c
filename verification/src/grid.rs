use vstd::prelude::*;
use crate::geometry::{Point, Size};

verus! {

/// `(x, y)` lies inside a grid of the given size.
pub open spec fn in_bounds(size: Size, x: int, y: int) -> bool {
    0 <= x < size.width && 0 <= y < size.height
}

/// Position in the flat storage of the cell `(x, y)`: columns are stored
/// one after the other, each column holding `height` cells.
pub open spec fn flat_index(size: Size, x: int, y: int) -> int {
    x * size.height + y
}

/// The point stored at flat position `i`.
pub open spec fn point_at(size: Size, i: int) -> Point {
    Point { x: (i / size.height as int) as usize, y: (i % size.height as int) as usize }
}

/// The number of cells of a grid of the given size.
pub open spec fn area(size: Size) -> int {
    size.width * size.height
}

/// In-bounds points and flat positions below the area correspond one to one.
pub proof fn lemma_flat_index(size: Size, x: int, y: int)
    requires
        in_bounds(size, x, y),
    ensures
        0 <= flat_index(size, x, y) < area(size),
        point_at(size, flat_index(size, x, y)) == (Point { x: x as usize, y: y as usize }),
{
    let h = size.height as int;
    let w = size.width as int;
    assert(0 <= x * h + y < w * h) by (nonlinear_arith)
        requires
            0 <= x < w,
            0 <= y < h,
    ;
    assert((x * h + y) / h == x && (x * h + y) % h == y) by (nonlinear_arith)
        requires
            0 <= x,
            0 <= y < h,
    ;
}

/// Every flat position below the area stores an in-bounds point.
pub proof fn lemma_point_at(size: Size, i: int)
    requires
        0 <= i < area(size),
    ensures
        in_bounds(size, point_at(size, i).x as int, point_at(size, i).y as int),
        flat_index(size, point_at(size, i).x as int, point_at(size, i).y as int) == i,
{
    let h = size.height as int;
    let w = size.width as int;
    assert(h > 0) by (nonlinear_arith)
        requires
            0 <= i < w * h,
            w >= 0,
            h >= 0,
    ;
    assert(0 <= i / h < w && 0 <= i % h < h && (i / h) * h + i % h == i) by (nonlinear_arith)
        requires
            0 <= i < w * h,
            h > 0,
    ;
}

/// The offset, from a cell, of its `k`-th neighbour candidate, in the
/// order in which neighbours are listed.
pub open spec fn neighbor_offset(k: int) -> (int, int) {
    if k == 0 {
        (-1, -1)
    } else if k == 1 {
        (-1, 0)
    } else if k == 2 {
        (-1, 1)
    } else if k == 3 {
        (0, -1)
    } else if k == 4 {
        (0, 1)
    } else if k == 5 {
        (1, -1)
    } else if k == 6 {
        (1, 0)
    } else {
        (1, 1)
    }
}

/// The `k`-th neighbour candidate of `p`. Coordinates are taken as `i32`
/// before the offset is added.
pub open spec fn neighbor_candidate(p: Point, k: int) -> (int, int) {
    ((p.x as i32) as int + neighbor_offset(k).0, (p.y as i32) as int + neighbor_offset(k).1)
}

/// The in-bounds neighbours of `p` among its first `k` candidates, in order.
pub open spec fn neighbors_upto(size: Size, p: Point, k: nat) -> Seq<Point>
    decreases k,
{
    if k == 0 {
        Seq::empty()
    } else {
        let prev = neighbors_upto(size, p, (k - 1) as nat);
        let c = neighbor_candidate(p, k - 1);
        if in_bounds(size, c.0, c.1) {
            prev.push(Point { x: c.0 as usize, y: c.1 as usize })
        } else {
            prev
        }
    }
}

/// The in-bounds neighbours of `p`, in the order of the eight offsets
/// (-1,-1), (-1,0), (-1,1), (0,-1), (0,1), (1,-1), (1,0), (1,1).
pub open spec fn neighbor_points(size: Size, p: Point) -> Seq<Point> {
    neighbors_upto(size, p, 8)
}

/// The coordinates of `p` survive the `i32` arithmetic of the neighbour
/// computation without overflow.
pub open spec fn neighbor_safe(p: Point) -> bool {
    i32::MIN < (p.x as i32) < i32::MAX && i32::MIN < (p.y as i32) < i32::MAX
}

/// A grid of `width * height` elements, stored column by column.
#[derive(Debug, Clone)]
pub struct Vec2<T> {
    data: Vec<T>,
    size: Size,
}

impl<T> View for Vec2<T> {
    type V = Seq<T>;

    closed spec fn view(&self) -> Seq<T> {
        self.data@
    }
}

impl<T> Vec2<T> {
    /// The dimensions of the grid.
    pub closed spec fn dims(&self) -> Size {
        self.size
    }

    /// The grid holds exactly one element per cell.
    pub open spec fn wf(&self) -> bool {
        &&& self@.len() == area(self.dims())
        &&& area(self.dims()) <= usize::MAX
    }

    /// The element at `(x, y)`.
    pub open spec fn elem(&self, x: int, y: int) -> T {
        self@[flat_index(self.dims(), x, y)]
    }

    /// A grid of the given size over `data`, which holds the columns one
    /// after the other.
    pub fn new(data: Vec<T>, size: Size) -> (g: Self)
        requires
            data@.len() == size.width * size.height,
        ensures
            g@ == data@,
            g.dims() == size,
            g.wf(),
    {
        // The length is a `usize`, so the area fits in one.
        let _ = data.len();
        Self { data, size }
    }

    fn index(&self, x: usize, y: usize) -> (i: usize)
        requires
            x * self.size.height + y <= usize::MAX,
        ensures
            i == flat_index(self.dims(), x as int, y as int),
    {
        x * self.size.height + y
    }

    /// An iterator over the cells, in storage order, starting at the origin.
    pub fn iter<'a>(&'a self) -> (it: Vec2Iter<'a, T>)
        requires
            self.wf(),
        ensures
            it.grid() == self,
            it.consumed() == 0,
            it.wf(),
    {
        Vec2Iter { data: self, index: Point::zero() }
    }

    /// An iterator that hands out each cell for modification, in storage
    /// order, starting at the origin.
    pub fn iter_mut<'a>(&'a mut self) -> (it: Vec2IterMut<'a, T>)
        requires
            old(self).wf(),
        ensures
            it.grid() == *old(self),
            it.consumed() == 0,
            it.wf(),
            *final(self) == *final(it.data),
    {
        Vec2IterMut { data: self, index: 0 }
    }

    /// The number of columns.
    pub fn get_width(&self) -> (w: usize)
        ensures
            w == self.dims().width,
    {
        self.size.width
    }

    /// The number of rows.
    pub fn get_height(&self) -> (h: usize)
        ensures
            h == self.dims().height,
    {
        self.size.height
    }

    /// The element at `coordinates`, or `None` outside the grid.
    pub fn get_element(&self, coordinates: Point) -> (r: Option<&T>)
        requires
            self.wf(),
        ensures
            in_bounds(self.dims(), coordinates.x as int, coordinates.y as int) ==> r == Some(
                &self.elem(coordinates.x as int, coordinates.y as int),
            ),
            !in_bounds(self.dims(), coordinates.x as int, coordinates.y as int) ==> r.is_none(),
    {
        if coordinates.x >= self.size.width || coordinates.y >= self.size.height {
            return None;
        }
        proof {
            lemma_flat_index(self.size, coordinates.x as int, coordinates.y as int);
        }
        let index = self.index(coordinates.x, coordinates.y);
        Some(&self.data[index])
    }

    /// The element at `coordinates` for modification, or `None` outside the
    /// grid. What is written through the reference lands at `coordinates`.
    pub fn get_element_mut(&mut self, coordinates: Point) -> (r: Option<&mut T>)
        requires
            old(self).wf(),
        ensures
            final(self).dims() == old(self).dims(),
            final(self).wf(),
            in_bounds(old(self).dims(), coordinates.x as int, coordinates.y as int) ==> (r matches Some(e)
                && *e == old(self).elem(coordinates.x as int, coordinates.y as int)
                && final(self)@ == old(self)@.update(
                flat_index(old(self).dims(), coordinates.x as int, coordinates.y as int),
                *final(e),
            )),
            !in_bounds(old(self).dims(), coordinates.x as int, coordinates.y as int) ==> (r is None
                && *final(self) == *old(self)),
    {
        if coordinates.x >= self.size.width || coordinates.y >= self.size.height {
            return None;
        }
        proof {
            lemma_flat_index(self.size, coordinates.x as int, coordinates.y as int);
        }
        let index = self.index(coordinates.x, coordinates.y);
        Some(&mut self.data[index])
    }

    /// Writes `element` at flat position `x * height + y` when that position
    /// lies inside the storage; does nothing otherwise. Only the position
    /// is checked, so a `y` past the last row reaches into the next column.
    pub fn replace_at(&mut self, element: T, coordinates: Point)
        requires
            coordinates.x * old(self).dims().height + coordinates.y <= usize::MAX,
        ensures
            final(self).dims() == old(self).dims(),
            ({
                let i = flat_index(old(self).dims(), coordinates.x as int, coordinates.y as int);
                if i < old(self)@.len() {
                    final(self)@ == old(self)@.update(i, element)
                } else {
                    final(self)@ == old(self)@
                }
            }),
    {
        assert(self.dims() == self.size);
        assert(coordinates.x * self.size.height + coordinates.y <= usize::MAX);
        let index = self.index(coordinates.x, coordinates.y);
        if index < self.data.len() {
            self.data.set(index, element);
        }
    }
}

/// The `k`-th neighbour offset.
fn offset_at(k: usize) -> (o: (i32, i32))
    requires
        k < 8,
    ensures
        o.0 as int == neighbor_offset(k as int).0,
        o.1 as int == neighbor_offset(k as int).1,
{
    if k == 0 {
        (-1, -1)
    } else if k == 1 {
        (-1, 0)
    } else if k == 2 {
        (-1, 1)
    } else if k == 3 {
        (0, -1)
    } else if k == 4 {
        (0, 1)
    } else if k == 5 {
        (1, -1)
    } else if k == 6 {
        (1, 0)
    } else {
        (1, 1)
    }
}

impl<T> Vec2<T> {
    /// The in-bounds neighbours of `coordinates` with their elements, in the
    /// order of `neighbor_points`.
    pub fn neighbors(&self, coordinates: Point) -> (r: Vec<(Point, &T)>)
        requires
            self.wf(),
            neighbor_safe(coordinates),
        ensures
            r@.len() == neighbor_points(self.dims(), coordinates).len(),
            forall|i: int|
                0 <= i < r@.len() ==> {
                    &&& (#[trigger] r@[i]).0 == neighbor_points(self.dims(), coordinates)[i]
                    &&& *r@[i].1 == self.elem(r@[i].0.x as int, r@[i].0.y as int)
                },
    {
        let x = coordinates.x as i32;
        let y = coordinates.y as i32;
        let mut r: Vec<(Point, &T)> = Vec::new();
        let mut k: usize = 0;
        while k < 8
            invariant
                self.wf(),
                neighbor_safe(coordinates),
                x == coordinates.x as i32,
                y == coordinates.y as i32,
                k <= 8,
                r@.len() == neighbors_upto(self.dims(), coordinates, k as nat).len(),
                forall|i: int|
                    0 <= i < r@.len() ==> {
                        &&& (#[trigger] r@[i]).0 == neighbors_upto(self.dims(), coordinates, k as nat)[i]
                        &&& *r@[i].1 == self.elem(r@[i].0.x as int, r@[i].0.y as int)
                    },
            decreases 8 - k,
        {
            let (dx, dy) = offset_at(k);
            let nx = x + dx;
            let ny = y + dy;
            if nx >= 0 && ny >= 0 {
                let point = Point { x: nx as usize, y: ny as usize };
                if let Some(cell) = self.get_element(point) {
                    r.push((point, cell));
                }
            }
            k = k + 1;
        }
        r
    }
}

/// An iterator over the cells of a grid and their coordinates.
pub struct Vec2Iter<'a, T> {
    data: &'a Vec2<T>,
    index: Point,
}

impl<'a, T> Vec2Iter<'a, T> {
    /// The grid being walked.
    pub closed spec fn grid(&self) -> Vec2<T> {
        *self.data
    }

    /// How many cells have been handed out so far.
    pub closed spec fn consumed(&self) -> int {
        flat_index(self.data.dims(), self.index.x as int, self.index.y as int)
    }

    /// The iterator stands on a cell, or just past the last one.
    pub closed spec fn wf(&self) -> bool {
        &&& self.data.wf()
        &&& if self.data.dims().height == 0 {
            self.index.x == 0 && self.index.y == 0
        } else {
            &&& self.index.y < self.data.dims().height
            &&& self.index.x <= self.data.dims().width
            &&& self.index.x == self.data.dims().width ==> self.index.y == 0
        }
    }

    /// The next cell in storage order with its coordinates, or `None`
    /// once every cell has been handed out.
    pub fn next(&mut self) -> (r: Option<(Point, &'a T)>)
        requires
            old(self).wf(),
        ensures
            final(self).wf(),
            final(self).grid() == old(self).grid(),
            0 <= old(self).consumed() <= old(self).grid()@.len(),
            old(self).consumed() < old(self).grid()@.len() ==> {
                &&& final(self).consumed() == old(self).consumed() + 1
                &&& r == Some(
                    (
                        point_at(old(self).grid().dims(), old(self).consumed()),
                        &old(self).grid()@[old(self).consumed()],
                    ),
                )
            },
            old(self).consumed() == old(self).grid()@.len() ==> {
                &&& final(self).consumed() == old(self).consumed()
                &&& r.is_none()
            },
    {
        let ghost size = self.data.dims();
        let ghost h = size.height as int;
        let ghost w = size.width as int;
        proof {
            if h == 0 {
                assert(w * h == 0) by (nonlinear_arith)
                    requires
                        h == 0,
                ;
            }
            if h > 0 {
                let x = self.index.x as int;
                let y = self.index.y as int;
                assert(0 <= x * h + y <= w * h) by (nonlinear_arith)
                    requires
                        0 <= x <= w,
                        0 <= y < h,
                        x == w ==> y == 0,
                ;
                if x == w {
                    assert(x * h + y == w * h);
                }
                if x < w {
                    lemma_flat_index(size, x, y);
                    assert(x * h + y + 1 == (x + 1) * h + 0 || y + 1 < h) by (nonlinear_arith)
                        requires
                            0 <= y < h,
                            y + 1 >= h ==> y + 1 == h,
                    ;
                }
            }
        }
        let element = match self.data.get_element(self.index) {
            Some(e) => e,
            None => {
                return None;
            },
        };
        let index = self.index;
        self.index.y = self.index.y + 1;
        if self.index.y >= self.data.get_height() {
            self.index.y = 0;
            self.index.x = self.index.x + 1;
        }
        Some((index, element))
    }
}

/// An iterator that hands out, one at a time, a mutable reference to each
/// cell of a grid with its coordinates.
pub struct Vec2IterMut<'a, T> {
    /// The grid being walked.
    pub data: &'a mut Vec2<T>,
    /// The flat position of the next cell to hand out.
    pub index: usize,
}

impl<'a, T> Vec2IterMut<'a, T> {
    /// The grid as it stands now.
    pub closed spec fn grid(&self) -> Vec2<T> {
        *self.data
    }

    /// How many cells have been handed out so far.
    pub closed spec fn consumed(&self) -> int {
        self.index as int
    }

    /// The iterator stands on a cell, or just past the last one.
    pub closed spec fn wf(&self) -> bool {
        &&& self.data.wf()
        &&& self.index <= self.data@.len()
    }

    /// The next cell in storage order with its coordinates, handed out for
    /// modification, or `None` once every cell has been handed out. What is
    /// written through the reference lands in the grid.
    pub fn next(&mut self) -> (r: Option<(Point, &mut T)>)
        requires
            old(self).wf(),
        ensures
            final(self).wf(),
            final(self).grid().dims() == old(self).grid().dims(),
            *final(final(self).data) == *final(old(self).data),
            0 <= old(self).consumed() <= old(self).grid()@.len(),
            r matches Some((p, e)) ==> {
                &&& old(self).consumed() < old(self).grid()@.len()
                &&& p == point_at(old(self).grid().dims(), old(self).consumed())
                &&& *e == old(self).grid()@[old(self).consumed()]
                &&& final(self).consumed() == old(self).consumed() + 1
                &&& final(self).grid()@ == old(self).grid()@.update(old(self).consumed(), *final(e))
            },
            r is None ==> {
                &&& old(self).consumed() == old(self).grid()@.len()
                &&& *final(self) == *old(self)
            },
    {
        let i = self.index;
        if i >= self.data.data.len() {
            return None;
        }
        let h = self.data.size.height;
        proof {
            lemma_point_at(self.data.size, i as int);
        }
        self.index = i + 1;
        let p = Point { x: i / h, y: i % h };
        Some((p, &mut self.data.data[i]))
    }
}

/// Once an iterator is no longer used, the grid it borrowed stands as the
/// iterator left it: every write made through it is in the grid.
pub proof fn lemma_iter_mut_done<'a, T>(it: Vec2IterMut<'a, T>)
    requires
        has_resolved(it),
    ensures
        it.grid() == *final(it.data),
{
}

} // verus!
