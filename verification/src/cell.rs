use vstd::prelude::*;

verus! {

/// A single Conway cell.
///
/// `Dead` is declared first and `Alive` second, so the default discriminants
/// give the two states the numeric values 0 and 1; consumers reading the cell
/// buffer as raw bytes observe exactly those two values.
#[derive(Clone, Copy, Debug, PartialEq, Eq, Structural)]
pub enum Cell {
    Dead,
    Alive,
}

/// Numeric value of a cell: 1 when alive, 0 when dead.
pub open spec fn live(c: Cell) -> int {
    if c is Alive {
        1
    } else {
        0
    }
}

/// The opposite cell state.
pub open spec fn flipped(c: Cell) -> Cell {
    match c {
        Cell::Dead => Cell::Alive,
        Cell::Alive => Cell::Dead,
    }
}

/// Trusted: relies on `rand::random::<bool>`, which draws either boolean with
/// probability 1/2. Of a random draw nothing can be promised, so the result
/// is left entirely open.
#[verifier::external_body]
fn random_bool() -> (b: bool) {
    rand::random::<bool>()
}

impl Cell {
    /// Draws a fresh cell state, alive or dead with equal probability.
    ///
    /// Either value may come back on any call, so nothing more is promised
    /// of the result.
    pub fn rand() -> Cell {
        if random_bool() {
            Cell::Alive
        } else {
            Cell::Dead
        }
    }

    /// Flips this cell to the opposite state.
    pub(crate) fn toggle(&mut self)
        ensures
            *final(self) == flipped(*old(self)),
    {
        *self = match *self {
            Cell::Dead => Cell::Alive,
            Cell::Alive => Cell::Dead,
        };
    }
}

} // verus!
