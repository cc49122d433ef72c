use vstd::prelude::*;
use crate::geometry::Point;

verus! {

/// One of the two players of a multiplayer game.
#[derive(Debug, Clone)]
pub struct Player {
    pub name: String,
    pub id: String,
    pub is_active: bool,
    pub mines_found: Vec<Point>,
}

impl Player {
    /// A player with the given name, no id, not on turn, with no mines found.
    pub fn new(name: &str) -> (p: Player)
        ensures
            p.name@ == name@,
            p.id@ == Seq::<char>::empty(),
            !p.is_active,
            p.mines_found@ == Seq::<Point>::empty(),
    {
        Player { name: String::from_str(name), id: String::new(), is_active: false, mines_found: Vec::new() }
    }

    /// The number of mines the player has found.
    pub fn score(&self) -> (n: usize)
        ensures
            n == self.mines_found@.len(),
    {
        self.mines_found.len()
    }

    /// The player found the mine at `coordinates`.
    pub fn has_mine(&self, coordinates: Point) -> (b: bool)
        ensures
            b == self.mines_found@.contains(coordinates),
    {
        let mut i: usize = 0;
        while i < self.mines_found.len()
            invariant
                i <= self.mines_found@.len(),
                forall|j: int| 0 <= j < i ==> self.mines_found@[j] != coordinates,
            decreases self.mines_found@.len() - i,
        {
            if self.mines_found[i] == coordinates {
                return true;
            }
            i = i + 1;
        }
        false
    }
}

} // verus!
