use vstd::prelude::*;
use crate::procedural::cell::SPCell;
use crate::procedural::error::PossibilityError;
use crate::procedural::grid::{contradicted, in_grid, is_grid, Domains, SuperPositionGrid};
use crate::procedural::measure::{candidates, lemma_narrows, lemma_narrows_transitive, narrows};

verus! {

/// What a constraint computes: the candidates it leaves a cell, from the
/// grid's domains, the cell's row and column, and the cell's own domain.
pub type Rule<T> = spec_fn(Domains<T>, int, int, Seq<T>) -> Seq<T>;

/// Whether `constraint` may be called on every well-formed grid with every
/// cell.
pub open spec fn accepts<T: Copy, F: Fn(&SuperPositionGrid<T>, &SPCell<T>) -> Vec<T>>(
    constraint: F,
) -> bool {
    forall|grid: SuperPositionGrid<T>, cell: SPCell<T>|
        grid.wf() ==> #[trigger] call_requires(constraint, (&grid, &cell))
}

/// Whether `constraint` computes `rule`: what it returns for a grid and a
/// cell is what `rule` gives for the grid's domains, the cell's row and
/// column, and the cell's own domain.
pub open spec fn implements<T: Copy, F: Fn(&SuperPositionGrid<T>, &SPCell<T>) -> Vec<T>>(
    constraint: F,
    rule: Rule<T>,
) -> bool {
    forall|grid: SuperPositionGrid<T>, cell: SPCell<T>, out: Vec<T>|
        grid.wf() && #[trigger] call_ensures(constraint, (&grid, &cell), out) ==> out@ == rule(
            grid@,
            cell.location.y as int,
            cell.location.x as int,
            cell.positions@,
        )
}

/// What becomes of `domain` when the constraint proposes `proposed`: a
/// proposal is taken only where it has fewer candidates.
pub open spec fn narrowed<T>(domain: Seq<T>, proposed: Seq<T>) -> Seq<T> {
    if proposed.len() < domain.len() {
        proposed
    } else {
        domain
    }
}

/// The grid after one sweep: every cell narrowed by what `rule` makes of the
/// grid as it stood before the sweep.
pub open spec fn swept<T>(
    gv: Domains<T>,
    rule: Rule<T>,
) -> Domains<T> {
    Seq::new(
        gv.len(),
        |y: int| Seq::new(gv[y].len(), |x: int| narrowed(gv[y][x], rule(gv, y, x, gv[y][x]))),
    )
}

/// The grid after sweeping until a sweep changes nothing or leaves a cell
/// without candidates.
pub open spec fn propagated<T>(
    gv: Domains<T>,
    rule: Rule<T>,
) -> Domains<T>
    decreases candidates(gv),
    when is_grid(gv)
    via propagated_ends::<T>
{
    let next = swept(gv, rule);
    if contradicted(next) || next == gv {
        next
    } else {
        propagated(next, rule)
    }
}

/// A sweep that changes the grid takes a candidate away.
#[via_fn]
proof fn propagated_ends<T>(
    gv: Domains<T>,
    rule: Rule<T>,
) {
    lemma_swept_narrows(gv, rule);
    lemma_narrows(gv, swept(gv, rule));
}

/// Whether `rule` has nothing left to remove anywhere in the grid.
pub open spec fn stable<T>(
    gv: Domains<T>,
    rule: Rule<T>,
) -> bool {
    forall|y: int, x: int|
        in_grid(gv, y, x) ==> (#[trigger] rule(gv, y, x, gv[y][x])).len() >= gv[y][x].len()
}

/// A sweep keeps the grid's shape and narrows it.
pub proof fn lemma_swept_narrows<T>(
    gv: Domains<T>,
    rule: Rule<T>,
)
    requires
        is_grid(gv),
    ensures
        is_grid(swept(gv, rule)),
        narrows(gv, swept(gv, rule)),
{
}

/// Propagation keeps the grid's shape, narrows it, and ends either on a
/// contradiction or where the rule has nothing left to remove.
pub proof fn lemma_propagated<T>(
    gv: Domains<T>,
    rule: Rule<T>,
)
    requires
        is_grid(gv),
    ensures
        is_grid(propagated(gv, rule)),
        narrows(gv, propagated(gv, rule)),
        contradicted(propagated(gv, rule)) || stable(propagated(gv, rule), rule),
    decreases candidates(gv),
{
    let next = swept(gv, rule);
    lemma_swept_narrows(gv, rule);
    lemma_narrows(gv, next);
    if contradicted(next) {
    } else if next == gv {
        assert forall|y: int, x: int| in_grid(gv, y, x) implies (#[trigger] rule(
            gv,
            y,
            x,
            gv[y][x],
        )).len() >= gv[y][x].len() by {
            assert(next[y][x] == narrowed(gv[y][x], rule(gv, y, x, gv[y][x])));
        }
    } else {
        lemma_propagated(next, rule);
        lemma_narrows_transitive(gv, next, propagated(next, rule));
    }
}

/// Whether `cell` is what a sweep makes of the cell at row `y`, column `x`
/// of `grid`.
pub open spec fn cell_swept<T: Copy, F: Fn(&SuperPositionGrid<T>, &SPCell<T>) -> Vec<T>>(
    constraint: F,
    grid: SuperPositionGrid<T>,
    y: int,
    x: int,
    cell: SPCell<T>,
) -> bool {
    &&& cell.location == grid.cell_at(y, x).location
    &&& exists|out: Vec<T>|
        {
            &&& #[trigger] call_ensures(constraint, (&grid, &grid.cell_at(y, x)), out)
            &&& cell.positions@ == narrowed(grid.cell_at(y, x).positions@, out@)
        }
}

impl<T: Copy> SuperPositionGrid<T> {
    /// One sweep over the grid: asks `constraint` about every cell of the
    /// grid as it stands, and only when all have been asked narrows the
    /// cells for which it proposed fewer candidates. Says whether any cell
    /// changed.
    pub fn sweep<F: Fn(&SuperPositionGrid<T>, &SPCell<T>) -> Vec<T>>(
        &mut self,
        constraint: &F,
    ) -> (changed: bool)
        requires
            old(self).wf(),
            accepts(*constraint),
        ensures
            final(self).wf(),
            narrows(old(self)@, final(self)@),
            changed == (final(self)@ != old(self)@),
            forall|y: int, x: int|
                in_grid(old(self)@, y, x) ==> cell_swept(
                    *constraint,
                    *old(self),
                    y,
                    x,
                    #[trigger] final(self).cell_at(y, x),
                ),
            forall|rule: Rule<T>|
                #[trigger] implements(*constraint, rule) ==> final(self)@ == swept(
                    old(self)@,
                    rule,
                ),
    {
        proof {
            self.lemma_wf();
        }
        let ghost before = *self;
        let height = self.height();
        let width = self.width();
        let mut rows: Vec<Vec<SPCell<T>>> = Vec::new();
        let mut changed = false;
        let ghost mut wy: int = 0;
        let ghost mut wx: int = 0;
        let mut y: usize = 0;
        while y < height
            invariant
                *self == before,
                before.wf(),
                is_grid(before@),
                accepts(*constraint),
                height == before@.len(),
                width == before@[0].len(),
                y <= height,
                rows@.len() == y,
                forall|j: int| 0 <= j < y ==> (#[trigger] rows@[j])@.len() == width,
                forall|j: int, i: int|
                    0 <= j < y && 0 <= i < width ==> cell_swept(
                        *constraint,
                        before,
                        j,
                        i,
                        #[trigger] rows@[j]@[i],
                    ),
                !changed ==> forall|j: int, i: int|
                    0 <= j < y && 0 <= i < width ==> (#[trigger] rows@[j]@[i]).positions@
                        == before@[j][i],
                changed ==> 0 <= wy < y && 0 <= wx < width && rows@[wy]@[wx].positions@.len()
                    < before@[wy][wx].len(),
            decreases height - y,
        {
            let mut row: Vec<SPCell<T>> = Vec::new();
            let mut x: usize = 0;
            let ghost changed_above = changed;
            while x < width
                invariant
                    *self == before,
                    before.wf(),
                    is_grid(before@),
                    accepts(*constraint),
                    height == before@.len(),
                    width == before@[0].len(),
                    y < height,
                    x <= width,
                    row@.len() == x,
                    forall|i: int|
                        0 <= i < x ==> cell_swept(
                            *constraint,
                            before,
                            y as int,
                            i,
                            #[trigger] row@[i],
                        ),
                    !changed ==> forall|i: int|
                        0 <= i < x ==> (#[trigger] row@[i]).positions@ == before@[y as int][i],
                    rows@.len() == y,
                    forall|j: int| 0 <= j < y ==> (#[trigger] rows@[j])@.len() == width,
                    !changed ==> !changed_above,
                    changed ==> 0 <= wx < width && {
                        ||| 0 <= wy < y && rows@[wy]@[wx].positions@.len() < before@[wy][wx].len()
                        ||| wy == y && wx < x && row@[wx].positions@.len() < before@[wy][wx].len()
                    },
                decreases width - x,
            {
                let cell = self.at(y, x);
                let proposed = constraint(&*self, cell);
                let next = if proposed.len() < cell.positions.len() {
                    proof {
                        if !changed {
                            wy = y as int;
                            wx = x as int;
                        }
                    }
                    changed = true;
                    SPCell { positions: proposed, location: cell.location }
                } else {
                    cell.duplicate()
                };
                assert(cell_swept(*constraint, before, y as int, x as int, next));
                row.push(next);
                x += 1;
            }
            rows.push(row);
            y += 1;
        }
        *self = SuperPositionGrid::from_rows(rows);
        proof {
            self.lemma_wf();
            before.lemma_wf();
            assert(self@.len() == before@.len());
            assert forall|j: int| 0 <= j < before@.len() implies (#[trigger] self@[j]).len()
                == before@[j].len() by {
                assert(self@[j].len() == self@[0].len());
                assert(before@[j].len() == before@[0].len());
            }
            assert forall|j: int, i: int| in_grid(before@, j, i) implies cell_swept(
                *constraint,
                before,
                j,
                i,
                #[trigger] self.cell_at(j, i),
            ) by {
                assert(cell_swept(*constraint, before, j, i, rows@[j]@[i]));
            }
            assert forall|j: int, i: int| in_grid(before@, j, i) implies (#[trigger] self@[j][i])
                == before@[j][i] || self@[j][i].len() < before@[j][i].len() by {
                assert(cell_swept(*constraint, before, j, i, self.cell_at(j, i)));
            }
            assert(narrows(before@, self@));
            if changed {
                assert(self.cell_at(wy, wx) == rows@[wy]@[wx]);
                assert(self@[wy][wx].len() < before@[wy][wx].len());
            } else {
                assert forall|j: int, i: int| in_grid(before@, j, i) implies #[trigger] self@[j][i]
                    == before@[j][i] by {
                    assert(self.cell_at(j, i) == rows@[j]@[i]);
                }
                assert(self@ =~~= before@);
            }
            assert forall|rule: Rule<T>|
                #[trigger] implements(*constraint, rule) implies self@ == swept(before@, rule) by {
                assert forall|j: int, i: int| in_grid(before@, j, i) implies #[trigger] self@[j][i]
                    == swept(before@, rule)[j][i] by {
                    assert(cell_swept(*constraint, before, j, i, self.cell_at(j, i)));
                    assert(before.cell_at(j, i).positions@ == before@[j][i]);
                }
                assert(self@ =~~= swept(before@, rule));
            }
        }
        changed
    }

    /// Whether some cell has no candidate left.
    pub fn is_contradicted(&self) -> (dead: bool)
        requires
            self.wf(),
        ensures
            dead == contradicted(self@),
    {
        proof {
            self.lemma_wf();
        }
        let height = self.height();
        let width = self.width();
        let mut y: usize = 0;
        while y < height
            invariant
                self.wf(),
                is_grid(self@),
                height == self@.len(),
                width == self@[0].len(),
                y <= height,
                forall|j: int, i: int|
                    0 <= j < y && 0 <= i < width ==> (#[trigger] self@[j][i]).len() != 0,
            decreases height - y,
        {
            let mut x: usize = 0;
            while x < width
                invariant
                    self.wf(),
                    is_grid(self@),
                    height == self@.len(),
                    width == self@[0].len(),
                    y < height,
                    x <= width,
                    forall|j: int, i: int|
                        (0 <= j < y && 0 <= i < width) || (j == y && 0 <= i < x) ==> (
                        #[trigger] self@[j][i]).len() != 0,
                decreases width - x,
            {
                if self.at(y, x).positions.len() == 0 {
                    return true;
                }
                x += 1;
            }
            y += 1;
        }
        false
    }

    /// Sweeps until a sweep changes nothing, or until one leaves a cell
    /// without candidates, which is reported at once.
    pub fn propagate<F: Fn(&SuperPositionGrid<T>, &SPCell<T>) -> Vec<T>>(
        &mut self,
        constraint: &F,
    ) -> (res: Result<(), PossibilityError>)
        requires
            old(self).wf(),
            accepts(*constraint),
        ensures
            final(self).wf(),
            narrows(old(self)@, final(self)@),
            res is Err <==> contradicted(final(self)@),
            forall|rule: Rule<T>|
                #[trigger] implements(*constraint, rule) ==> {
                    &&& final(self)@ == propagated(old(self)@, rule)
                    &&& res is Ok ==> stable(final(self)@, rule)
                },
    {
        let ghost start = self@;
        proof {
            self.lemma_wf();
        }
        loop
            invariant
                self.wf(),
                is_grid(start),
                start == old(self)@,
                accepts(*constraint),
                narrows(start, self@),
                forall|rule: Rule<T>|
                    #[trigger] implements(*constraint, rule) ==> propagated(start, rule)
                        == propagated(self@, rule),
            decreases candidates(self@),
        {
            let ghost before = self@;
            let changed = self.sweep(constraint);
            let dead = self.is_contradicted();
            proof {
                lemma_narrows(before, self@);
                lemma_narrows_transitive(start, before, self@);
            }
            if dead || !changed {
                proof {
                    assert forall|rule: Rule<T>|
                        #[trigger] implements(*constraint, rule) implies self@ == propagated(
                        start,
                        rule,
                    ) && (!dead ==> stable(self@, rule)) by {
                        assert(self@ == swept(before, rule));
                        assert(propagated(before, rule) == self@);
                        lemma_propagated(start, rule);
                    }
                }
                if dead {
                    return Err(PossibilityError);
                }
                return Ok(());
            }
            proof {
                assert forall|rule: Rule<T>|
                    #[trigger] implements(*constraint, rule) implies propagated(start, rule)
                    == propagated(self@, rule) by {
                    assert(self@ == swept(before, rule));
                }
            }
        }
    }
}

} // verus!
