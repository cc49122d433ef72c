use vstd::prelude::*;

verus! {

/// Whether a cell is still covered, uncovered, or marked as a suspected mine.
#[derive(Debug, Copy, Clone, PartialEq, Eq, Structural, Default)]
pub enum CellState {
    #[default]
    Hidden,
    Cleared,
    Flagged,
}

/// What lies under a cell: nothing, the number of mines around it, or a mine.
#[derive(Debug, Copy, Clone, PartialEq, Eq, Structural, Default)]
pub enum CellKind {
    #[default]
    Empty,
    Number(u8),
    Mine,
}

/// One square of the board.
#[derive(Debug, Copy, Clone, PartialEq, Eq, Structural, Default)]
pub struct Cell {
    pub kind: CellKind,
    pub state: CellState,
}

/// The kind of a non-mine cell with `n` mines around it.
pub open spec fn number_kind(n: int) -> CellKind {
    if n == 0 {
        CellKind::Empty
    } else {
        CellKind::Number(n as u8)
    }
}

/// The state a cell takes when its flag is toggled: hidden and flagged
/// swap, a cleared cell stays cleared.
pub open spec fn toggled(state: CellState) -> CellState {
    match state {
        CellState::Hidden => CellState::Flagged,
        CellState::Flagged => CellState::Hidden,
        CellState::Cleared => CellState::Cleared,
    }
}

/// A hidden mine.
pub open spec fn hidden_mine() -> Cell {
    Cell { kind: CellKind::Mine, state: CellState::Hidden }
}

impl Cell {
    /// A hidden cell of the given kind.
    pub fn new(kind: CellKind) -> (c: Self)
        ensures
            c.kind == kind,
            c.state == CellState::Hidden,
    {
        Cell { kind, state: CellState::Hidden }
    }

    /// A hidden, non-mine cell with `number` mines around it.
    pub fn new_number(number: u8) -> (c: Self)
        ensures
            c.kind == number_kind(number as int),
            c.state == CellState::Hidden,
    {
        let kind = match number {
            0 => CellKind::Empty,
            n => CellKind::Number(n),
        };
        Cell { kind, state: CellState::Hidden }
    }

    pub fn is_mine(&self) -> (b: bool)
        ensures
            b == (self.kind == CellKind::Mine),
    {
        matches!(self.kind, CellKind::Mine)
    }

    pub fn is_empty(&self) -> (b: bool)
        ensures
            b == (self.kind == CellKind::Empty),
    {
        matches!(self.kind, CellKind::Empty)
    }

    pub fn is_hidden(&self) -> (b: bool)
        ensures
            b == (self.state == CellState::Hidden),
    {
        matches!(self.state, CellState::Hidden)
    }

    pub fn is_cleared(&self) -> (b: bool)
        ensures
            b == (self.state == CellState::Cleared),
    {
        matches!(self.state, CellState::Cleared)
    }

    pub fn is_flagged(&self) -> (b: bool)
        ensures
            b == (self.state == CellState::Flagged),
    {
        matches!(self.state, CellState::Flagged)
    }

    /// A hidden mine.
    pub fn new_mine() -> (c: Cell)
        ensures
            c == hidden_mine(),
    {
        Cell { kind: CellKind::Mine, state: CellState::Hidden }
    }

    /// Puts a flag on a hidden cell or takes it off a flagged one; a
    /// cleared cell is left as it is.
    pub fn toggle_flagged(&mut self)
        ensures
            final(self).kind == old(self).kind,
            final(self).state == toggled(old(self).state),
    {
        self.state = match self.state {
            CellState::Hidden => CellState::Flagged,
            CellState::Flagged => CellState::Hidden,
            _ => self.state,
        };
    }

    /// Uncovers the cell.
    pub fn clear(&mut self)
        ensures
            final(self).kind == old(self).kind,
            final(self).state == CellState::Cleared,
    {
        self.state = CellState::Cleared
    }
}

} // verus!
