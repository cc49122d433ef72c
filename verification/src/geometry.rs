use vstd::prelude::*;
use rand::RngExt;

verus! {

/// A cell coordinate: `x` is the column, `y` the row.
#[derive(Debug, Copy, Clone, PartialEq, Eq, Structural, Default)]
pub struct Point {
    pub x: usize,
    pub y: usize,
}

/// The dimensions of a grid.
#[derive(Debug, Copy, Clone, PartialEq, Eq, Structural, Default)]
pub struct Size {
    pub width: usize,
    pub height: usize,
}

/// A number drawn uniformly from `low..high` by the thread-local
/// generator of `rand` (`rand::rng()` and `RngExt::random_range`).
/// The contract claims only that the number lies in the range; which
/// number comes out is chance and is left unsaid.
#[verifier::external_body]
pub(crate) fn random_in_range(low: usize, high: usize) -> (r: usize)
    requires
        low < high,
    ensures
        low <= r < high,
{
    let mut rng = rand::rng();
    rng.random_range(low..high)
}

impl Point {
    /// A point whose coordinates are drawn at random from the two ranges.
    pub fn random_between(range_x: std::ops::Range<usize>, range_y: std::ops::Range<usize>) -> (p: Point)
        requires
            range_x.start < range_x.end,
            range_y.start < range_y.end,
        ensures
            range_x.start <= p.x < range_x.end,
            range_y.start <= p.y < range_y.end,
    {
        let x = random_in_range(range_x.start, range_x.end);
        let y = random_in_range(range_y.start, range_y.end);
        Point { x, y }
    }

    /// The origin.
    pub fn zero() -> (p: Point)
        ensures
            p.x == 0 && p.y == 0,
    {
        Point { x: 0, y: 0 }
    }
}

impl Size {
    /// A size from its height and its width (in that order).
    pub fn new(height: usize, width: usize) -> (s: Size)
        ensures
            s.width == width && s.height == height,
    {
        Size { width, height }
    }
}

} // verus!
