use vstd::prelude::*;
use crate::procedural::direction::CellLocation;
use crate::procedural::error::PossibilityError;
use crate::procedural::grid::{in_grid, is_grid, resolved, with_domain, Domains, SuperPositionGrid};
use crate::procedural::measure::narrows;
use crate::procedural::weights::{choice, choose_weighted, eq_is_identity};

verus! {

/// Whether the cell at row `y`, column `x` is at least as urgent as the one
/// at row `y2`, column `x2`: it has fewer candidates, or as many and comes
/// no later when the grid is read row by row.
pub open spec fn no_later<T>(gv: Domains<T>, y: int, x: int, y2: int, x2: int) -> bool {
    gv[y][x].len() < gv[y2][x2].len() || (gv[y][x].len() == gv[y2][x2].len() && (y < y2 || (y
        == y2 && x <= x2)))
}

/// Whether the cell at row `y`, column `x` is the one to collapse next: of
/// the cells that are not resolved, the least certain one, and among equals
/// the first in row-major order.
pub open spec fn is_selection<T>(gv: Domains<T>, y: int, x: int) -> bool {
    &&& in_grid(gv, y, x)
    &&& gv[y][x].len() != 1
    &&& forall|y2: int, x2: int|
        in_grid(gv, y2, x2) && (#[trigger] gv[y2][x2]).len() != 1 ==> no_later(gv, y, x, y2, x2)
}

/// The cell to collapse next, as `(y, x)`.
pub open spec fn selection<T>(gv: Domains<T>) -> (int, int) {
    choose|p: (int, int)| is_selection(gv, p.0, p.1)
}

/// `gv` after the cell at row `y`, column `x` has taken the one value that
/// `draw` selects from its candidates.
pub open spec fn collapsed<T>(
    gv: Domains<T>,
    y: int,
    x: int,
    values: Seq<T>,
    weights: Seq<u32>,
    draw: u64,
) -> Domains<T> {
    with_domain(gv, y, x, seq![gv[y][x][choice(gv[y][x], values, weights, draw)]])
}

/// Only one cell can be the next to collapse.
pub proof fn lemma_selection_unique<T>(gv: Domains<T>, y: int, x: int, y2: int, x2: int)
    requires
        is_selection(gv, y, x),
        is_selection(gv, y2, x2),
    ensures
        y == y2,
        x == x2,
{
    assert(no_later(gv, y, x, y2, x2));
    assert(no_later(gv, y2, x2, y, x));
}

/// A grid with a cell that is not resolved, such as the one at row `uy`,
/// column `ux`, has a cell to collapse next.
pub proof fn lemma_selection_exists<T>(gv: Domains<T>, uy: int, ux: int)
    requires
        is_grid(gv),
        in_grid(gv, uy, ux),
        gv[uy][ux].len() != 1,
    ensures
        is_selection(gv, selection(gv).0, selection(gv).1),
{
    let (y, x) = lemma_scan(gv, 0, 0, uy, ux);
    assert(is_selection(gv, (y, x).0, (y, x).1));
}

/// Whether the cell at row `y2`, column `x2` comes before the one at row
/// `y`, column `x` when the grid is read row by row.
spec fn is_before(y2: int, x2: int, y: int, x: int) -> bool {
    y2 < y || (y2 == y && x2 < x)
}

/// Reads the grid on from row `y`, column `x`, holding the most urgent
/// unresolved cell so far, which is at row `by`, column `bx`, and comes to
/// the cell to collapse next. Before the first unresolved cell is read, the
/// cell held is one that is still to come.
proof fn lemma_scan<T>(gv: Domains<T>, y: int, x: int, by: int, bx: int) -> (found: (
    int,
    int,
))
    requires
        is_grid(gv),
        0 <= y <= gv.len(),
        0 <= x < gv[0].len(),
        in_grid(gv, by, bx),
        gv[by][bx].len() != 1,
        forall|y2: int, x2: int|
            in_grid(gv, y2, x2) && is_before(y2, x2, y, x) && (#[trigger] gv[y2][x2]).len() != 1
                ==> is_before(by, bx, y, x) && no_later(gv, by, bx, y2, x2),
    ensures
        is_selection(gv, found.0, found.1),
    decreases gv.len() - y, gv[0].len() - x,
{
    if y == gv.len() {
        (by, bx)
    } else {
        let (ny, nx) = if x + 1 < gv[0].len() {
            (y, x + 1)
        } else {
            (y + 1, 0int)
        };
        let takes_over = gv[y][x].len() != 1 && (!is_before(by, bx, y, x) || gv[y][x].len()
            < gv[by][bx].len());
        if takes_over {
            lemma_scan(gv, ny, nx, y, x)
        } else {
            lemma_scan(gv, ny, nx, by, bx)
        }
    }
}

/// Collapsing a cell that had a choice narrows the grid by at least one
/// candidate and leaves its shape alone.
pub proof fn lemma_collapsed_narrows<T>(
    gv: Domains<T>,
    y: int,
    x: int,
    values: Seq<T>,
    weights: Seq<u32>,
    draw: u64,
)
    requires
        is_grid(gv),
        in_grid(gv, y, x),
        gv[y][x].len() >= 2,
    ensures
        is_grid(collapsed(gv, y, x, values, weights, draw)),
        narrows(gv, collapsed(gv, y, x, values, weights, draw)),
        collapsed(gv, y, x, values, weights, draw) != gv,
{
    let after = collapsed(gv, y, x, values, weights, draw);
    assert(after[y][x].len() == 1);
    assert forall|j: int| 0 <= j < gv.len() implies (#[trigger] after[j]).len() == gv[j].len() by {
        assert(gv[j].len() == gv[0].len());
    }
    assert(gv[0].len() == after[0].len());
}

impl<T: Copy + PartialEq> SuperPositionGrid<T> {
    /// The cell to collapse next: the least certain of those not resolved,
    /// the first of them in row-major order where several are equally
    /// uncertain. `None` once every cell is resolved. A cell with no
    /// candidate at all counts as the least certain.
    pub fn select(&self) -> (next: Option<CellLocation>)
        requires
            self.wf(),
        ensures
            next is None <==> resolved(self@),
            next matches Some(at) ==> {
                &&& is_selection(self@, at.y as int, at.x as int)
                &&& selection(self@) == (at.y as int, at.x as int)
            },
    {
        proof {
            self.lemma_wf();
        }
        let height = self.height();
        let width = self.width();
        let mut best: Option<CellLocation> = None;
        let mut least: usize = 0;
        let mut y: usize = 0;
        while y < height
            invariant
                self.wf(),
                is_grid(self@),
                height == self@.len(),
                width == self@[0].len(),
                y <= height,
                best is None ==> forall|y2: int, x2: int|
                    0 <= y2 < y && 0 <= x2 < width ==> (#[trigger] self@[y2][x2]).len() == 1,
                best matches Some(at) ==> {
                    &&& in_grid(self@, at.y as int, at.x as int)
                    &&& at.y < y
                    &&& self@[at.y as int][at.x as int].len() == least
                    &&& least != 1
                    &&& forall|y2: int, x2: int|
                        0 <= y2 < y && 0 <= x2 < width && (#[trigger] self@[y2][x2]).len() != 1
                            ==> no_later(self@, at.y as int, at.x as int, y2, x2)
                },
            decreases height - y,
        {
            let mut x: usize = 0;
            while x < width
                invariant
                    self.wf(),
                    is_grid(self@),
                    height == self@.len(),
                    width == self@[0].len(),
                    y < height,
                    x <= width,
                    best is None ==> forall|y2: int, x2: int|
                        (0 <= y2 < y && 0 <= x2 < width) || (y2 == y && 0 <= x2 < x) ==> (
                        #[trigger] self@[y2][x2]).len() == 1,
                    best matches Some(at) ==> {
                        &&& in_grid(self@, at.y as int, at.x as int)
                        &&& (at.y < y || (at.y == y && at.x < x))
                        &&& self@[at.y as int][at.x as int].len() == least
                        &&& least != 1
                        &&& forall|y2: int, x2: int|
                            ((0 <= y2 < y && 0 <= x2 < width) || (y2 == y && 0 <= x2 < x)) && (
                            #[trigger] self@[y2][x2]).len() != 1 ==> no_later(
                                self@,
                                at.y as int,
                                at.x as int,
                                y2,
                                x2,
                            )
                    },
                decreases width - x,
            {
                let count = self.at(y, x).positions.len();
                if count != 1 {
                    let better = match best {
                        Some(_) => count < least,
                        None => true,
                    };
                    if better {
                        best = Some(CellLocation { x, y });
                        least = count;
                    }
                }
                x += 1;
            }
            y += 1;
        }
        proof {
            match best {
                Some(at) => {
                    let here = (at.y as int, at.x as int);
                    assert(is_selection(self@, here.0, here.1));
                    let chosen = selection(self@);
                    lemma_selection_unique(self@, here.0, here.1, chosen.0, chosen.1);
                },
                None => {},
            }
        }
        best
    }

    /// Resolves the cell at `location` to the one of its candidates that
    /// `draw` selects under the weights of `table`. Fails, and leaves the
    /// grid as it is, where there is nothing to choose from: the cell has no
    /// candidate, or the grid has no such cell.
    pub fn collapse_cell(
        &mut self,
        location: CellLocation,
        table: (&Vec<T>, &Vec<u32>),
        draw: u64,
    ) -> (res: Result<(), PossibilityError>)
        requires
            old(self).wf(),
            eq_is_identity::<T>(),
        ensures
            final(self).wf(),
            res is Ok <==> in_grid(old(self)@, location.y as int, location.x as int) && old(
                self,
            )@[location.y as int][location.x as int].len() > 0,
            res is Ok ==> final(self)@ == collapsed(
                old(self)@,
                location.y as int,
                location.x as int,
                table.0@,
                table.1@,
                draw,
            ),
            res is Err ==> final(self)@ == old(self)@,
    {
        proof {
            self.lemma_wf();
        }
        let mut only: Vec<T> = Vec::new();
        match self.cell(location) {
            Some(cell) => {
                match choose_weighted(&cell.positions, table, draw) {
                    Some(at) => {
                        only.push(cell.positions[at]);
                    },
                    None => {
                        return Err(PossibilityError);
                    },
                }
            },
            None => {
                return Err(PossibilityError);
            },
        }
        assert(only@ =~= seq![
            old(self)@[location.y as int][location.x as int][choice(
                old(self)@[location.y as int][location.x as int],
                table.0@,
                table.1@,
                draw,
            )],
        ]);
        self.override_positions(location, only);
        Ok(())
    }
}

} // verus!
