use vstd::prelude::*;
use crate::procedural::direction::CellLocation;

verus! {

/// One cell of the grid: where it is, and the values it may still take.
/// The order of `positions` carries no meaning but is kept stable.
#[derive(Debug)]
pub struct SPCell<T> {
    pub positions: Vec<T>,
    pub location: CellLocation,
}

/// A fresh vector with the same elements in the same order.
pub fn copy_positions<T: Copy>(positions: &Vec<T>) -> (out: Vec<T>)
    ensures
        out@ == positions@,
{
    let mut out: Vec<T> = Vec::new();
    let mut i: usize = 0;
    while i < positions.len()
        invariant
            i <= positions.len(),
            out@ == positions@.take(i as int),
        decreases positions.len() - i,
    {
        out.push(positions[i]);
        i += 1;
    }
    out
}

impl<T: Copy> SPCell<T> {
    pub fn new(location: CellLocation, positions: Vec<T>) -> (cell: Self)
        ensures
            cell.location == location,
            cell.positions == positions,
    {
        SPCell { positions, location }
    }

    /// Whether exactly one value is left.
    pub fn is_collapsed(&self) -> (b: bool)
        ensures
            b == (self.positions@.len() == 1),
    {
        self.positions.len() == 1
    }

    /// A copy of this cell.
    pub fn duplicate(&self) -> (cell: Self)
        ensures
            cell.location == self.location,
            cell.positions@ == self.positions@,
    {
        SPCell { positions: copy_positions(&self.positions), location: self.location }
    }
}

} // verus!
