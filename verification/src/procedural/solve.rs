use vstd::prelude::*;
use crate::procedural::cell::SPCell;
use crate::procedural::error::PossibilityError;
use crate::procedural::grid::{contradicted, in_grid, is_grid, resolved, Domains, SuperPositionGrid};
use crate::procedural::measure::{candidates, lemma_narrows, lemma_narrows_transitive, narrows};
use crate::procedural::propagate::{accepts, implements, lemma_propagated, propagated, stable, Rule};
use crate::procedural::random::random_draw;
use crate::procedural::select::{
    collapsed, lemma_collapsed_narrows, lemma_selection_exists, no_later, selection,
};
use crate::procedural::weights::eq_is_identity;

verus! {

/// The `k`-th number of a random stream, which goes on with zeros where
/// `draws` ends.
pub open spec fn draw_at(draws: Seq<u64>, k: int) -> u64 {
    if 0 <= k < draws.len() {
        draws[k]
    } else {
        0
    }
}

/// Where solving ends, and whether it ends well, when it starts from `gv`
/// and takes its random numbers from `draws`, beginning with number `used`.
///
/// While some cell is not resolved: the least certain one is selected; if
/// it has no candidate, solving fails; otherwise it collapses to the
/// candidate that the next draw selects, and `rule` is propagated through
/// the grid, which fails if that leaves a cell without candidates.
pub open spec fn solved<T>(
    gv: Domains<T>,
    rule: Rule<T>,
    values: Seq<T>,
    weights: Seq<u32>,
    draws: Seq<u64>,
    used: int,
) -> (Domains<T>, bool)
    decreases candidates(gv),
    when is_grid(gv)
    via solved_ends::<T>
{
    if resolved(gv) {
        (gv, true)
    } else {
        let (y, x) = selection(gv);
        if gv[y][x].len() == 0 {
            (gv, false)
        } else {
            let settled = propagated(
                collapsed(gv, y, x, values, weights, draw_at(draws, used)),
                rule,
            );
            if contradicted(settled) {
                (settled, false)
            } else {
                solved(settled, rule, values, weights, draws, used + 1)
            }
        }
    }
}

/// A collapse takes a candidate away, and propagation brings none back.
#[via_fn]
proof fn solved_ends<T>(
    gv: Domains<T>,
    rule: Rule<T>,
    values: Seq<T>,
    weights: Seq<u32>,
    draws: Seq<u64>,
    used: int,
) {
    if !resolved(gv) {
        let (uy, ux) = choose|uy: int, ux: int|
            in_grid(gv, uy, ux) && (#[trigger] gv[uy][ux]).len() != 1;
        lemma_selection_exists(gv, uy, ux);
        let (y, x) = selection(gv);
        if gv[y][x].len() != 0 {
            let fixed = collapsed(gv, y, x, values, weights, draw_at(draws, used));
            lemma_collapsed_narrows(gv, y, x, values, weights, draw_at(draws, used));
            lemma_narrows(gv, fixed);
            lemma_propagated(fixed, rule);
            lemma_narrows(fixed, propagated(fixed, rule));
        }
    }
}

/// Whether `after` and `ok` are how solving `before` ends on the random
/// stream `draws`, for every rule that `constraint` computes.
pub open spec fn solves<T: Copy, F: Fn(&SuperPositionGrid<T>, &SPCell<T>) -> Vec<T>>(
    constraint: F,
    before: Domains<T>,
    after: Domains<T>,
    ok: bool,
    values: Seq<T>,
    weights: Seq<u32>,
    draws: Seq<u64>,
) -> bool {
    forall|rule: Rule<T>|
        #[trigger] implements(constraint, rule) ==> solved(before, rule, values, weights, draws, 0)
            == (after, ok)
}

/// A grid cannot be both resolved and contradicted.
pub proof fn lemma_resolved_or_contradicted<T>(gv: Domains<T>)
    requires
        is_grid(gv),
    ensures
        !(resolved(gv) && contradicted(gv)),
{
    if contradicted(gv) {
        let (y, x) = choose|y: int, x: int| in_grid(gv, y, x) && (#[trigger] gv[y][x]).len() == 0;
        assert(gv[y][x].len() != 1);
    }
}

/// Solving keeps the grid's shape and only narrows it. It ends well exactly
/// when every cell is resolved, and badly exactly when some cell is left
/// without candidates. Where it ends well after at least one collapse, the
/// rule has nothing left to remove from the result.
pub proof fn lemma_solved<T>(
    gv: Domains<T>,
    rule: Rule<T>,
    values: Seq<T>,
    weights: Seq<u32>,
    draws: Seq<u64>,
    used: int,
)
    requires
        is_grid(gv),
    ensures
        is_grid(solved(gv, rule, values, weights, draws, used).0),
        narrows(gv, solved(gv, rule, values, weights, draws, used).0),
        solved(gv, rule, values, weights, draws, used).1 <==> resolved(
            solved(gv, rule, values, weights, draws, used).0,
        ),
        !solved(gv, rule, values, weights, draws, used).1 <==> contradicted(
            solved(gv, rule, values, weights, draws, used).0,
        ),
        solved(gv, rule, values, weights, draws, used).1 && !resolved(gv) ==> stable(
            solved(gv, rule, values, weights, draws, used).0,
            rule,
        ),
    decreases candidates(gv),
{
    lemma_resolved_or_contradicted(gv);
    if !resolved(gv) {
        let (y, x) = selection(gv);
        let (uy, ux) = choose|uy: int, ux: int|
            in_grid(gv, uy, ux) && (#[trigger] gv[uy][ux]).len() != 1;
        lemma_selection_exists(gv, uy, ux);
        if gv[y][x].len() != 0 {
            let draw = draw_at(draws, used);
            let fixed = collapsed(gv, y, x, values, weights, draw);
            lemma_collapsed_narrows(gv, y, x, values, weights, draw);
            lemma_narrows(gv, fixed);
            let settled = propagated(fixed, rule);
            lemma_propagated(fixed, rule);
            lemma_narrows(fixed, settled);
            lemma_narrows_transitive(gv, fixed, settled);
            lemma_resolved_or_contradicted(settled);
            if !contradicted(settled) {
                lemma_solved(settled, rule, values, weights, draws, used + 1);
                let last = solved(settled, rule, values, weights, draws, used + 1).0;
                lemma_narrows_transitive(gv, settled, last);
                if resolved(settled) {
                    assert(last == settled);
                }
            }
        }
    }
}

/// A contradiction is never passed over: from a grid in which some cell
/// has no candidate, solving fails at once and leaves the grid as it is.
pub proof fn lemma_contradiction_is_reported<T>(
    gv: Domains<T>,
    rule: Rule<T>,
    values: Seq<T>,
    weights: Seq<u32>,
    draws: Seq<u64>,
    used: int,
)
    requires
        is_grid(gv),
        contradicted(gv),
    ensures
        solved(gv, rule, values, weights, draws, used) == (gv, false),
{
    lemma_resolved_or_contradicted(gv);
    let (y, x) = choose|y: int, x: int| in_grid(gv, y, x) && (#[trigger] gv[y][x]).len() == 0;
    lemma_selection_exists(gv, y, x);
    let at = selection(gv);
    assert(no_later(gv, at.0, at.1, y, x));
}

impl<T: Copy + PartialEq> SuperPositionGrid<T> {
    /// Solves the grid on a given random stream: collapses the least
    /// certain cell and propagates `constraint`, over and over, until every
    /// cell is resolved or some cell is left without candidates. Collapse
    /// number `k` is decided by `draws[k]`, and by zero once `draws` is used
    /// up, so the outcome is a function of the arguments alone.
    pub fn full_collapse_with<F: Fn(&SuperPositionGrid<T>, &SPCell<T>) -> Vec<T>>(
        &mut self,
        constraint: F,
        table: (&Vec<T>, &Vec<u32>),
        draws: &Vec<u64>,
    ) -> (res: Result<(), PossibilityError>)
        requires
            old(self).wf(),
            eq_is_identity::<T>(),
            accepts(constraint),
        ensures
            final(self).wf(),
            narrows(old(self)@, final(self)@),
            res is Ok <==> resolved(final(self)@),
            res is Err <==> contradicted(final(self)@),
            solves(constraint, old(self)@, final(self)@, res is Ok, table.0@, table.1@, draws@),
    {
        let ghost start = self@;
        let ghost mut spent: int = 0;
        let mut used: usize = 0;
        proof {
            self.lemma_wf();
        }
        loop
            invariant
                self.wf(),
                is_grid(start),
                start == old(self)@,
                eq_is_identity::<T>(),
                accepts(constraint),
                narrows(start, self@),
                spent >= 0,
                used == spent || (used == usize::MAX && spent >= usize::MAX),
                forall|rule: Rule<T>|
                    #[trigger] implements(constraint, rule) ==> solved(
                        start,
                        rule,
                        table.0@,
                        table.1@,
                        draws@,
                        0,
                    ) == solved(self@, rule, table.0@, table.1@, draws@, spent),
            decreases candidates(self@),
        {
            let ghost before = self@;
            proof {
                self.lemma_wf();
                lemma_resolved_or_contradicted(before);
            }
            let at = match self.select() {
                Some(at) => at,
                None => {
                    return Ok(());
                },
            };
            let draw = if used < draws.len() {
                draws[used]
            } else {
                0
            };
            assert(draw == draw_at(draws@, spent));
            if self.collapse_cell(at, table, draw).is_err() {
                assert(before[at.y as int][at.x as int].len() == 0);
                return Err(PossibilityError);
            }
            let ghost fixed = self@;
            let settled = self.propagate(&constraint);
            proof {
                lemma_collapsed_narrows(before, at.y as int, at.x as int, table.0@, table.1@, draw);
                lemma_narrows(before, fixed);
                lemma_narrows(fixed, self@);
                lemma_narrows_transitive(before, fixed, self@);
                lemma_narrows_transitive(start, before, self@);
                lemma_resolved_or_contradicted(self@);
            }
            if settled.is_err() {
                return Err(PossibilityError);
            }
            proof {
                spent = spent + 1;
            }
            if used < usize::MAX {
                used += 1;
            }
        }
    }

    /// Solves the grid: collapses the least certain cell to a candidate
    /// chosen at random in proportion to its weight in `table` and
    /// propagates `constraint`, over and over, until every cell is resolved
    /// or some cell is left without candidates. There is no backtracking:
    /// after a failure the grid is of no further use.
    pub fn full_collapse<F: Fn(&SuperPositionGrid<T>, &SPCell<T>) -> Vec<T>>(
        &mut self,
        constraint: F,
        table: (&Vec<T>, &Vec<u32>),
    ) -> (res: Result<(), PossibilityError>)
        requires
            old(self).wf(),
            eq_is_identity::<T>(),
            accepts(constraint),
        ensures
            final(self).wf(),
            narrows(old(self)@, final(self)@),
            res is Ok <==> resolved(final(self)@),
            res is Err <==> contradicted(final(self)@),
            exists|draws: Seq<u64>| #[trigger]
                solves(constraint, old(self)@, final(self)@, res is Ok, table.0@, table.1@, draws),
    {
        let height = self.height();
        let width = self.width();
        let mut draws: Vec<u64> = Vec::new();
        let mut y: usize = 0;
        while y < height
            invariant
                y <= height,
            decreases height - y,
        {
            let mut x: usize = 0;
            while x < width
                invariant
                    x <= width,
                decreases width - x,
            {
                draws.push(random_draw());
                x += 1;
            }
            y += 1;
        }
        self.full_collapse_with(constraint, table, &draws)
    }
}

} // verus!
