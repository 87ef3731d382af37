use vstd::prelude::*;
use crate::map::tile::{can_connect, filtered_for_neighbor, not_connecting, MapTile};
use crate::procedural::cell::{copy_positions, SPCell};
use crate::procedural::direction::{lemma_opposite_is_involution, Direction};
use crate::procedural::grid::{
    in_grid, is_grid, neighbor_of, rendered, resolved, Domains, SuperPositionGrid,
};
use crate::procedural::propagate::{stable, Rule};

verus! {

/// Whether an opening towards `dir` of the cell at row `y`, column `x` can
/// still be met: there is a neighbour on that side, and one of its
/// candidates opens back. The edge of the grid meets nothing.
pub open spec fn open_towards(gv: Domains<MapTile>, y: int, x: int, dir: Direction) -> bool {
    match neighbor_of(gv, y, x, dir) {
        Some((ny, nx)) => can_connect(gv[ny][nx], dir.opposite()),
        None => false,
    }
}

/// Whether every opening of `tile` can still be met at row `y`, column `x`.
pub open spec fn fits(gv: Domains<MapTile>, y: int, x: int, tile: MapTile) -> bool {
    forall|dir: Direction| tile.connects(dir) ==> open_towards(gv, y, x, dir)
}

/// The tiles that fit at row `y`, column `x`.
pub open spec fn fitting(gv: Domains<MapTile>, y: int, x: int) -> spec_fn(MapTile) -> bool {
    |tile: MapTile| fits(gv, y, x, tile)
}

/// What the geometry of the map leaves of `domain` at row `y`, column `x`:
/// the tiles all of whose openings can still be met.
pub open spec fn map_geometry(
    gv: Domains<MapTile>,
    y: int,
    x: int,
    domain: Seq<MapTile>,
) -> Seq<MapTile> {
    domain.filter(fitting(gv, y, x))
}

/// `map_geometry` as a rule for the solver.
pub open spec fn map_geometry_rule() -> Rule<MapTile> {
    |gv: Domains<MapTile>, y: int, x: int, domain: Seq<MapTile>| map_geometry(gv, y, x, domain)
}

/// The tiles whose opening towards `dir`, if they have one, can still be
/// met at row `y`, column `x`.
pub open spec fn allowed(gv: Domains<MapTile>, y: int, x: int, dir: Direction) -> spec_fn(
    MapTile,
) -> bool {
    |tile: MapTile| tile.connects(dir) ==> open_towards(gv, y, x, dir)
}

/// Whether row `y`, column `x` lies inside the layout `map`.
pub open spec fn on_map(map: Seq<Seq<MapTile>>, y: int, x: int) -> bool {
    0 <= y < map.len() && 0 <= x < map[y].len()
}

/// No tile opens onto the outside of the map.
pub open spec fn edge_legal(map: Seq<Seq<MapTile>>) -> bool {
    forall|y: int, x: int, dir: Direction|
        on_map(map, y, x) && !on_map(map, y + dir.spec_unit().1, x + dir.spec_unit().0) ==> !(
        #[trigger] map[y][x].connects(dir))
}

/// Two tiles side by side either both open onto each other or neither does.
pub open spec fn mutually_connected(map: Seq<Seq<MapTile>>) -> bool {
    forall|y: int, x: int, dir: Direction|
        on_map(map, y, x) && on_map(map, y + dir.spec_unit().1, x + dir.spec_unit().0) ==> (
        #[trigger] map[y][x].connects(dir) <==> map[y + dir.spec_unit().1][x
            + dir.spec_unit().0].connects(dir.opposite()))
}

/// Filtering by a test that everything passes changes nothing.
pub proof fn lemma_filter_all<A>(s: Seq<A>, keep: spec_fn(A) -> bool)
    requires
        forall|i: int| 0 <= i < s.len() ==> keep(#[trigger] s[i]),
    ensures
        s.filter(keep) == s,
    decreases s.len(),
{
    reveal(Seq::filter);
    if s.len() > 0 {
        lemma_filter_all(s.drop_last(), keep);
        assert(s =~= s.drop_last().push(s.last()));
    }
}

/// Filtering twice is filtering once by both tests.
pub proof fn lemma_filter_twice<A>(
    s: Seq<A>,
    first: spec_fn(A) -> bool,
    second: spec_fn(A) -> bool,
    both: spec_fn(A) -> bool,
)
    requires
        forall|a: A| #[trigger] both(a) <==> first(a) && second(a),
    ensures
        s.filter(first).filter(second) == s.filter(both),
    decreases s.len(),
{
    reveal(Seq::filter);
    if s.len() > 0 {
        lemma_filter_twice(s.drop_last(), first, second, both);
        if first(s.last()) {
            s.drop_last().filter(first).lemma_filter_push(s.last(), second);
        }
    } else {
        assert(s.filter(first) =~= s);
    }
}

/// A filter that keeps as many values as it was given has kept each one.
pub proof fn lemma_filter_keeps_all<A>(s: Seq<A>, keep: spec_fn(A) -> bool)
    requires
        s.filter(keep).len() >= s.len(),
    ensures
        forall|i: int| 0 <= i < s.len() ==> keep(#[trigger] s[i]),
    decreases s.len(),
{
    reveal(Seq::filter);
    if s.len() > 0 {
        let front = s.drop_last();
        front.lemma_filter_len(keep);
        lemma_filter_keeps_all(front, keep);
        assert forall|i: int| 0 <= i < s.len() implies keep(#[trigger] s[i]) by {
            if i < front.len() {
                assert(s[i] == front[i]);
            }
        }
    }
}

/// What one side contributes to the constraint: beside no neighbour, or
/// beside one that cannot open back, the tiles that open towards `dir` go.
proof fn lemma_side(
    gv: Domains<MapTile>,
    y: int,
    x: int,
    dir: Direction,
    domain: Seq<MapTile>,
)
    ensures
        match neighbor_of(gv, y, x, dir) {
            Some((ny, nx)) => filtered_for_neighbor(dir, domain, gv[ny][nx]),
            None => domain.filter(not_connecting(dir)),
        } == domain.filter(allowed(gv, y, x, dir)),
{
    if open_towards(gv, y, x, dir) {
        lemma_filter_all(domain, allowed(gv, y, x, dir));
    } else {
        assert(not_connecting(dir) =~= allowed(gv, y, x, dir));
    }
}

/// The constraint that makes a map of the grid: a cell keeps the tiles all
/// of whose openings can still be met, by a neighbour that has a candidate
/// opening back. Each of the four sides is looked at in turn; the edge of
/// the grid counts as a neighbour that never opens.
pub fn collapse_map_geometry(grid: &SuperPositionGrid<MapTile>, cell: &SPCell<MapTile>) -> (kept:
    Vec<MapTile>)
    requires
        grid.wf(),
    ensures
        kept@ == map_geometry(
            grid@,
            cell.location.y as int,
            cell.location.x as int,
            cell.positions@,
        ),
{
    let ghost gv = grid@;
    let ghost y = cell.location.y as int;
    let ghost x = cell.location.x as int;
    let ghost start = cell.positions@;
    proof {
        grid.lemma_wf();
    }
    let mut new_positions = copy_positions(&cell.positions);

    let north = grid.neighbor(cell, Direction::North);
    let south = grid.neighbor(cell, Direction::South);
    let east = grid.neighbor(cell, Direction::East);
    let west = grid.neighbor(cell, Direction::West);

    new_positions = match south {
        None => MapTile::remove_positions_conn_to(Direction::South, new_positions),
        Some(neighbor) => MapTile::filter_for_neighbor(Direction::South, new_positions, neighbor),
    };
    let ghost after_south = new_positions@;
    proof {
        lemma_side(gv, y, x, Direction::South, start);
    }

    new_positions = match north {
        None => MapTile::remove_positions_conn_to(Direction::North, new_positions),
        Some(neighbor) => MapTile::filter_for_neighbor(Direction::North, new_positions, neighbor),
    };
    let ghost after_north = new_positions@;
    proof {
        lemma_side(gv, y, x, Direction::North, after_south);
    }

    new_positions = match west {
        None => MapTile::remove_positions_conn_to(Direction::West, new_positions),
        Some(neighbor) => MapTile::filter_for_neighbor(Direction::West, new_positions, neighbor),
    };
    let ghost after_west = new_positions@;
    proof {
        lemma_side(gv, y, x, Direction::West, after_north);
    }

    new_positions = match east {
        None => MapTile::remove_positions_conn_to(Direction::East, new_positions),
        Some(neighbor) => MapTile::filter_for_neighbor(Direction::East, new_positions, neighbor),
    };
    proof {
        lemma_side(gv, y, x, Direction::East, after_west);
        let south_north = |tile: MapTile|
            allowed(gv, y, x, Direction::South)(tile) && allowed(gv, y, x, Direction::North)(tile);
        let but_east = |tile: MapTile|
            south_north(tile) && allowed(gv, y, x, Direction::West)(tile);
        let every = |tile: MapTile| but_east(tile) && allowed(gv, y, x, Direction::East)(tile);
        lemma_filter_twice(
            start,
            allowed(gv, y, x, Direction::South),
            allowed(gv, y, x, Direction::North),
            south_north,
        );
        lemma_filter_twice(start, south_north, allowed(gv, y, x, Direction::West), but_east);
        lemma_filter_twice(start, but_east, allowed(gv, y, x, Direction::East), every);
        assert forall|tile: MapTile| #[trigger] every(tile) == fitting(gv, y, x)(tile) by {
            if every(tile) {
                assert forall|dir: Direction| tile.connects(dir) implies open_towards(
                    gv,
                    y,
                    x,
                    dir,
                ) by {
                    match dir {
                        Direction::North => {},
                        Direction::East => {},
                        Direction::South => {},
                        Direction::West => {},
                    }
                }
            }
        }
        assert(every =~= fitting(gv, y, x));
    }
    new_positions
}

/// In a grid where every cell is resolved and the geometry has nothing left
/// to remove, no tile opens onto the outside of the map, and two tiles side
/// by side either both open onto each other or neither does.
pub proof fn lemma_stable_layout(gv: Domains<MapTile>)
    requires
        is_grid(gv),
        resolved(gv),
        stable(gv, map_geometry_rule()),
    ensures
        edge_legal(rendered(gv)),
        mutually_connected(rendered(gv)),
{
    let map = rendered(gv);
    assert forall|y: int, x: int| in_grid(gv, y, x) implies fits(
        gv,
        y,
        x,
        #[trigger] gv[y][x][0],
    ) by {
        assert(map_geometry_rule()(gv, y, x, gv[y][x]).len() >= gv[y][x].len());
        lemma_filter_keeps_all(gv[y][x], fitting(gv, y, x));
        assert(fitting(gv, y, x)(gv[y][x][0]));
    }
    assert forall|y: int, x: int, dir: Direction|
        on_map(map, y, x) && !on_map(map, y + dir.spec_unit().1, x + dir.spec_unit().0) implies !(
    #[trigger] map[y][x].connects(dir)) by {
        assert(in_grid(gv, y, x));
        assert(fits(gv, y, x, gv[y][x][0]));
        let ny = y + dir.spec_unit().1;
        let nx = x + dir.spec_unit().0;
        if in_grid(gv, ny, nx) {
            assert(gv[ny].len() == gv[0].len());
        }
    }
    assert forall|y: int, x: int, dir: Direction|
        on_map(map, y, x) && on_map(
            map,
            y + dir.spec_unit().1,
            x + dir.spec_unit().0,
        ) implies (#[trigger] map[y][x].connects(dir) <==> map[y + dir.spec_unit().1][x
        + dir.spec_unit().0].connects(dir.opposite())) by {
        let ny = y + dir.spec_unit().1;
        let nx = x + dir.spec_unit().0;
        let back = dir.opposite();
        lemma_opposite_is_involution(dir);
        assert(gv[y].len() == gv[0].len());
        assert(gv[ny].len() == gv[0].len());
        assert(in_grid(gv, y, x) && in_grid(gv, ny, nx));
        assert(fits(gv, y, x, gv[y][x][0]));
        assert(fits(gv, ny, nx, gv[ny][nx][0]));
        assert(gv[y][x].len() == 1 && gv[ny][nx].len() == 1);
        assert(neighbor_of(gv, y, x, dir) == Some((ny, nx)));
        assert(neighbor_of(gv, ny, nx, back) == Some((y, x)));
        if map[y][x].connects(dir) {
            assert(open_towards(gv, y, x, dir));
        }
        if map[ny][nx].connects(back) {
            assert(open_towards(gv, ny, nx, back));
        }
    }
}

/// A map of a single room that opens onto the outside nowhere is the empty
/// room.
pub proof fn lemma_lone_room_is_empty(map: Seq<Seq<MapTile>>)
    requires
        map.len() == 1,
        map[0].len() == 1,
        edge_legal(map),
    ensures
        map[0][0] == MapTile::Empty,
{
    let tile = map[0][0];
    assert(on_map(map, 0, 0));
    assert forall|dir: Direction| !tile.connects(dir) by {
        assert(!on_map(map, 0 + dir.spec_unit().1, 0 + dir.spec_unit().0));
        assert(!map[0][0].connects(dir));
    }
    if tile != MapTile::Empty {
        let first = tile.spec_connections()[0];
        assert(tile.connects(first));
    }
}

} // verus!
