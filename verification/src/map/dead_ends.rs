use vstd::prelude::*;
use crate::map::generate::{generated, no_end_weights, seeded_grid};
use crate::map::geometry::{fits, fitting, map_geometry_rule};
use crate::map::tile::MapTile;
use crate::procedural::grid::{contradicted, in_grid, is_grid, rendered, resolved, Domains};
use crate::procedural::measure::{candidates, lemma_narrows};
use crate::procedural::propagate::{lemma_propagated, lemma_swept_narrows, propagated, swept};
use crate::procedural::select::{
    collapsed, is_selection, lemma_collapsed_narrows, lemma_selection_exists, selection,
};
use crate::procedural::solve::{draw_at, lemma_solved, solved};
use crate::procedural::weights::{
    choice, lemma_choice_exists, lemma_choice_has_weight, lemma_weight_sum_covers,
    lemma_weighted_is_listed, weight_from, weight_of,
};

verus! {

/// Whether a domain can no longer end in a dead end: it still holds
/// `Empty`, or it is down to one tile that is no dead end, or to none.
pub open spec fn tidy(domain: Seq<MapTile>) -> bool {
    ||| domain.contains(MapTile::Empty)
    ||| domain.len() == 0
    ||| domain.len() == 1 && !domain[0].is_dead_end()
}

/// Whether every domain of the grid is tidy.
pub open spec fn all_tidy(gv: Domains<MapTile>) -> bool {
    forall|y: int, x: int| in_grid(gv, y, x) ==> tidy(#[trigger] gv[y][x])
}

/// The geometry never removes `Empty`, which opens nowhere: so a sweep
/// keeps a tidy grid tidy.
pub proof fn lemma_swept_tidy(gv: Domains<MapTile>)
    requires
        is_grid(gv),
        all_tidy(gv),
    ensures
        all_tidy(swept(gv, map_geometry_rule())),
{
    let next = swept(gv, map_geometry_rule());
    assert forall|y: int, x: int| in_grid(next, y, x) implies tidy(#[trigger] next[y][x]) by {
        assert(in_grid(gv, y, x));
        let domain = gv[y][x];
        assert(tidy(domain));
        let kept = domain.filter(fitting(gv, y, x));
        if domain.contains(MapTile::Empty) {
            let at = choose|at: int| 0 <= at < domain.len() && domain[at] == MapTile::Empty;
            assert(fits(gv, y, x, MapTile::Empty));
            assert(fitting(gv, y, x)(domain[at]));
            domain.lemma_filter_contains(fitting(gv, y, x), at);
        }
    }
}

/// Propagating the geometry keeps a tidy grid tidy.
pub proof fn lemma_propagated_tidy(gv: Domains<MapTile>)
    requires
        is_grid(gv),
        all_tidy(gv),
    ensures
        all_tidy(propagated(gv, map_geometry_rule())),
    decreases candidates(gv),
{
    let next = swept(gv, map_geometry_rule());
    lemma_swept_tidy(gv);
    lemma_swept_narrows(gv, map_geometry_rule());
    lemma_narrows(gv, next);
    if !(contradicted(next) || next == gv) {
        lemma_propagated_tidy(next);
    }
}

/// Under the weights of the tiles without dead ends, a collapse of a cell
/// that holds `Empty` never chooses a dead end: so it keeps a tidy grid
/// tidy.
pub proof fn lemma_collapsed_tidy(gv: Domains<MapTile>, y: int, x: int, draw: u64)
    requires
        is_grid(gv),
        all_tidy(gv),
        in_grid(gv, y, x),
        gv[y][x].len() >= 2,
    ensures
        all_tidy(collapsed(gv, y, x, MapTile::spec_no_end(), no_end_weights(), draw)),
{
    let values = MapTile::spec_no_end();
    let weights = no_end_weights();
    let domain = gv[y][x];
    let after = collapsed(gv, y, x, values, weights, draw);
    let picked = choice(domain, values, weights, draw);
    assert(tidy(domain));
    let empty_at = choose|at: int| 0 <= at < domain.len() && domain[at] == MapTile::Empty;
    assert(weight_of(values, weights, MapTile::Empty) == 50) by {
        reveal_with_fuel(weight_from, 13);
    }
    lemma_weight_sum_covers(domain, values, weights, empty_at);
    lemma_choice_exists(domain, values, weights, draw);
    lemma_choice_has_weight(domain, values, weights, draw, picked);
    lemma_weighted_is_listed(values, weights, domain[picked], 0);
    let listed = choose|at: int| 0 <= at < values.len() && values[at] == domain[picked];
    assert(!values[listed].is_dead_end());
    assert forall|j: int, i: int| in_grid(after, j, i) implies tidy(#[trigger] after[j][i]) by {
        assert(gv[j].len() == gv[0].len());
        assert(in_grid(gv, j, i));
        if j == y && i == x {
            assert(after[j][i] == seq![domain[picked]]);
        } else {
            assert(after[j][i] == gv[j][i]);
        }
    }
}

/// Solving under the geometry of the map and the weights of the tiles
/// without dead ends keeps a tidy grid tidy.
pub proof fn lemma_solved_tidy(gv: Domains<MapTile>, draws: Seq<u64>, used: int)
    requires
        is_grid(gv),
        all_tidy(gv),
    ensures
        all_tidy(
            solved(
                gv,
                map_geometry_rule(),
                MapTile::spec_no_end(),
                no_end_weights(),
                draws,
                used,
            ).0,
        ),
    decreases candidates(gv),
{
    let rule = map_geometry_rule();
    let values = MapTile::spec_no_end();
    let weights = no_end_weights();
    if !resolved(gv) {
        let (uy, ux) = choose|uy: int, ux: int|
            in_grid(gv, uy, ux) && (#[trigger] gv[uy][ux]).len() != 1;
        lemma_selection_exists(gv, uy, ux);
        let (y, x) = selection(gv);
        assert(is_selection(gv, y, x));
        if gv[y][x].len() != 0 {
            let fixed = collapsed(gv, y, x, values, weights, draw_at(draws, used));
            lemma_collapsed_narrows(gv, y, x, values, weights, draw_at(draws, used));
            lemma_collapsed_tidy(gv, y, x, draw_at(draws, used));
            let settled = propagated(fixed, rule);
            lemma_propagated(fixed, rule);
            lemma_propagated_tidy(fixed);
            lemma_narrows(gv, fixed);
            lemma_narrows(fixed, settled);
            if !contradicted(settled) {
                lemma_solved_tidy(settled, draws, used + 1);
            }
        }
    }
}

/// No generated map has a dead end.
pub proof fn lemma_generated_has_no_dead_end(width: nat, height: nat, draws: Seq<u64>)
    requires
        width > 0,
        height > 0,
    ensures
        generated(width, height, draws) matches Some(map) ==> forall|y: int, x: int|
            0 <= y < map.len() && 0 <= x < map[y].len() ==> !(#[trigger] map[y][x]).is_dead_end(),
{
    let start = seeded_grid(width, height);
    assert(is_grid(start)) by {
        assert forall|y: int| 0 <= y < start.len() implies (#[trigger] start[y]).len()
            == start[0].len() by {
            assert(start[y].len() == width);
        }
    }
    assert(all_tidy(start)) by {
        assert forall|y: int, x: int| in_grid(start, y, x) implies tidy(#[trigger] start[y][x]) by {
            if start[y][x] == MapTile::spec_all() {
                assert(MapTile::spec_all()[14] == MapTile::Empty);
            } else {
                assert(start[y][x] == seq![MapTile::Cross]);
            }
        }
    }
    let rule = map_geometry_rule();
    let end = solved(start, rule, MapTile::spec_no_end(), no_end_weights(), draws, 0);
    lemma_solved_tidy(start, draws, 0);
    lemma_solved(
        start,
        map_geometry_rule(),
        MapTile::spec_no_end(),
        no_end_weights(),
        draws,
        0,
    );
    if end.1 {
        let map = rendered(end.0);
        assert forall|y: int, x: int| 0 <= y < map.len() && 0 <= x < map[y].len() implies !(
        #[trigger] map[y][x]).is_dead_end() by {
            assert(end.0[y].len() == end.0[0].len());
            assert(in_grid(end.0, y, x));
            let domain = end.0[y][x];
            assert(tidy(domain));
            assert(domain.len() == 1);
            if domain.contains(MapTile::Empty) {
                let at = choose|at: int| 0 <= at < domain.len() && domain[at] == MapTile::Empty;
                assert(domain[0] == MapTile::Empty);
            }
        }
    }
}

} // verus!
