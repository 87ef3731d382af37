use vstd::prelude::*;
use crate::map::geometry::{
    collapse_map_geometry, edge_legal, lemma_stable_layout, map_geometry_rule, mutually_connected,
    on_map,
};
use crate::map::dead_ends::lemma_generated_has_no_dead_end;
use crate::map::tile::MapTile;
use crate::procedural::direction::{CellLocation, Direction};
use crate::procedural::error::PossibilityError;
use crate::procedural::grid::{
    in_grid, is_grid, rendered, resolved, rows_of, with_domain, Domains, SuperPositionGrid,
};
use crate::procedural::propagate::{accepts, implements};
use crate::procedural::solve::{lemma_solved, solved, solves};
use crate::procedural::weights::eq_is_identity;

verus! {

/// The weight of every tile of `MapTile::no_end`, in hundredths.
pub open spec fn no_end_weights() -> Seq<u32> {
    seq![50u32, 50u32, 50u32, 50u32, 50u32, 50u32, 50u32, 50u32, 50u32, 50u32, 50u32, 50u32]
}

/// The weights of the tiles of `MapTile::all`, in hundredths.
pub open spec fn all_weights() -> Seq<u32> {
    seq![
        50u32,
        50u32,
        50u32,
        50u32,
        50u32,
        80u32,
        80u32,
        80u32,
        80u32,
        80u32,
        80u32,
        80u32,
        80u32,
        50u32,
        1u32,
        50u32,
    ]
}

/// A grid of `height` rows and `width` columns in which every cell may be
/// any tile.
pub open spec fn fresh_grid(width: nat, height: nat) -> Domains<MapTile> {
    Seq::new(height, |y: int| Seq::new(width, |x: int| MapTile::spec_all()))
}

/// The grid that map generation starts from: any tile anywhere, but a
/// `Cross` at row 3, column 3 where the grid reaches that far.
pub open spec fn seeded_grid(width: nat, height: nat) -> Domains<MapTile> {
    if in_grid(fresh_grid(width, height), 3, 3) {
        with_domain(fresh_grid(width, height), 3, 3, seq![MapTile::Cross])
    } else {
        fresh_grid(width, height)
    }
}

/// The map that the random stream `draws` generates, indexed `[y][x]`, or
/// `None` where solving runs into a contradiction.
pub open spec fn generated(width: nat, height: nat, draws: Seq<u64>) -> Option<Seq<Seq<MapTile>>> {
    let end = solved(
        seeded_grid(width, height),
        map_geometry_rule(),
        MapTile::spec_no_end(),
        no_end_weights(),
        draws,
        0,
    );
    if end.1 {
        Some(rendered(end.0))
    } else {
        None
    }
}

/// Every map that solving under the map's geometry produces, from a grid
/// that still left something to decide, is sound: no room opens onto the
/// outside, and two rooms side by side either both open onto each other or
/// neither does.
pub proof fn lemma_solved_layout(
    gv: Domains<MapTile>,
    values: Seq<MapTile>,
    weights: Seq<u32>,
    draws: Seq<u64>,
)
    requires
        is_grid(gv),
        !resolved(gv),
        solved(gv, map_geometry_rule(), values, weights, draws, 0).1,
    ensures
        edge_legal(rendered(solved(gv, map_geometry_rule(), values, weights, draws, 0).0)),
        mutually_connected(rendered(solved(gv, map_geometry_rule(), values, weights, draws, 0).0)),
{
    lemma_solved(gv, map_geometry_rule(), values, weights, draws, 0);
    lemma_stable_layout(solved(gv, map_geometry_rule(), values, weights, draws, 0).0);
}

/// A generated map has the size asked for and is sound, it has the `Cross`
/// that generation was seeded with, and it has no dead end.
pub proof fn lemma_generated(width: nat, height: nat, draws: Seq<u64>)
    requires
        width > 0,
        height > 0,
    ensures
        generated(width, height, draws) matches Some(map) ==> is_generated_map(map, width, height),
{
    lemma_generated_has_no_dead_end(width, height, draws);
    let start = seeded_grid(width, height);
    let fresh = fresh_grid(width, height);
    assert(is_grid(fresh));
    assert(is_grid(start)) by {
        assert forall|y: int| 0 <= y < start.len() implies (#[trigger] start[y]).len()
            == start[0].len() by {
            assert(fresh[y].len() == width);
        }
    }
    let rule = map_geometry_rule();
    let end = solved(start, rule, MapTile::spec_no_end(), no_end_weights(), draws, 0);
    lemma_solved(start, map_geometry_rule(), MapTile::spec_no_end(), no_end_weights(), draws, 0);
    if end.1 {
        assert(!resolved(start)) by {
            assert(in_grid(start, 0, 0));
            assert(start[0][0] == MapTile::spec_all());
            assert(start[0][0].len() == 16);
        }
        lemma_solved_layout(start, MapTile::spec_no_end(), no_end_weights(), draws);
        let map = rendered(end.0);
        assert forall|y: int| 0 <= y < height implies (#[trigger] map[y]).len() == width by {
            assert(end.0[y].len() == start[y].len());
            assert(start[y].len() == start[0].len());
        }
        if 3 < width && 3 < height {
            assert(in_grid(start, 3, 3));
            assert(start[3][3] == seq![MapTile::Cross]);
            assert(end.0[3][3] == start[3][3] || end.0[3][3].len() < start[3][3].len());
            assert(in_grid(end.0, 3, 3));
            assert(end.0[3][3].len() == 1);
        }
    }
}

/// The seeded `Cross` opens on all four sides, so a grid that reaches as
/// far as row 3, column 3 but no further, in either direction, never
/// generates a map.
pub proof fn lemma_cross_needs_room(width: nat, height: nat, draws: Seq<u64>)
    requires
        3 < width,
        3 < height,
        width == 4 || height == 4,
    ensures
        generated(width, height, draws) is None,
{
    lemma_generated(width, height, draws);
    match generated(width, height, draws) {
        Some(rooms) => {
            let cross = rooms[3][3];
            assert(on_map(rooms, 3, 3));
            assert(cross.spec_connections()[1] == Direction::North);
            assert(cross.spec_connections()[2] == Direction::East);
            assert(cross.connects(Direction::North) && cross.connects(Direction::East));
            let north = Direction::North.spec_unit();
            let east = Direction::East.spec_unit();
            if height == 4 {
                assert(!on_map(rooms, 3 + north.1, 3 + north.0));
            } else {
                assert(rooms[3].len() == width);
                assert(!on_map(rooms, 3 + east.1, 3 + east.0));
            }
        },
        None => {},
    }
}

/// The tiles without dead ends, and beside each its weight in hundredths.
pub fn no_end_table_value() -> (table: (Vec<MapTile>, Vec<u32>))
    ensures
        table.0@ == MapTile::spec_no_end(),
        table.1@ == no_end_weights(),
{
    (MapTile::no_end(), vec![50, 50, 50, 50, 50, 50, 50, 50, 50, 50, 50, 50])
}

/// All tiles, and beside each its weight in hundredths.
pub fn all_table_values() -> (table: (Vec<MapTile>, Vec<u32>))
    ensures
        table.0@ == MapTile::spec_all(),
        table.1@ == all_weights(),
{
    (MapTile::all(), vec![50, 50, 50, 50, 50, 80, 80, 80, 80, 80, 80, 80, 80, 50, 1, 50])
}

fn init_grid(height: usize, width: usize) -> (grid: SuperPositionGrid<MapTile>)
    requires
        height > 0,
        width > 0,
    ensures
        grid.wf(),
        grid@ == fresh_grid(width as nat, height as nat),
{
    SuperPositionGrid::new(height, width, &MapTile::all())
}

/// Generates a map of `width` by `height` rooms on the random stream
/// `draws`: the same stream gives the same map.
pub fn generate_map_with(width: usize, height: usize, draws: &Vec<u64>) -> (map: Result<
    Vec<Vec<MapTile>>,
    PossibilityError,
>)
    requires
        width > 0,
        height > 0,
    ensures
        match generated(width as nat, height as nat, draws@) {
            Some(layout) => map matches Ok(rows) && rows_of(rows) == layout,
            None => map is Err,
        },
{
    let mut grid = init_grid(height, width);
    let table = no_end_table_value();
    let cross = vec![MapTile::Cross];
    assert(cross@ =~= seq![MapTile::Cross]);
    grid.override_positions(CellLocation { x: 3, y: 3 }, cross);
    proof {
        assert(eq_is_identity::<MapTile>());
        assert(accepts(collapse_map_geometry));
        assert(implements(collapse_map_geometry, map_geometry_rule()));
        assert(grid@ =~~= seeded_grid(width as nat, height as nat));
    }
    let _ = grid.full_collapse_with(collapse_map_geometry, (&table.0, &table.1), draws);
    grid.render()
}

/// Generates a map of `width` by `height` rooms, indexed `[y][x]`, or fails
/// where solving runs into a contradiction; the caller may try again. A map
/// that comes back is one that some random stream generates, so it has the
/// size asked for, no room of it opens onto the outside, rooms side by side
/// agree on the opening between them, the room at row 3, column 3 is a
/// `Cross`, and no room is a dead end.
pub fn generate_map(width: usize, height: usize) -> (map: Result<
    Vec<Vec<MapTile>>,
    PossibilityError,
>)
    requires
        width > 0,
        height > 0,
    ensures
        exists|draws: Seq<u64>|
            match #[trigger] generated(width as nat, height as nat, draws) {
                Some(layout) => map matches Ok(rows) && rows_of(rows) == layout,
                None => map is Err,
            },
        map matches Ok(rows) ==> is_generated_map(rows_of(rows), width as nat, height as nat),
{
    let mut grid = init_grid(height, width);
    let table = no_end_table_value();
    let cross = vec![MapTile::Cross];
    assert(cross@ =~= seq![MapTile::Cross]);
    grid.override_positions(CellLocation { x: 3, y: 3 }, cross);
    proof {
        assert(eq_is_identity::<MapTile>());
        assert(accepts(collapse_map_geometry));
        assert(implements(collapse_map_geometry, map_geometry_rule()));
        assert(grid@ =~~= seeded_grid(width as nat, height as nat));
    }
    let ghost start = grid@;
    let res = grid.full_collapse(collapse_map_geometry, (&table.0, &table.1));
    proof {
        let draws = choose|draws: Seq<u64>| #[trigger]
            solves(collapse_map_geometry, start, grid@, res is Ok, table.0@, table.1@, draws);
        assert(solved(start, map_geometry_rule(), table.0@, table.1@, draws, 0) == (
            grid@,
            res is Ok,
        ));
        lemma_generated(width as nat, height as nat, draws);
        if res is Ok {
            assert(generated(width as nat, height as nat, draws) == Some(rendered(grid@)));
        } else {
            assert(generated(width as nat, height as nat, draws) is None);
        }
    }
    grid.render()
}

/// Whether `rows` is a map that map generation can produce for `width` by
/// `height` rooms: it has that size, no room of it opens onto the outside,
/// rooms side by side agree on the opening between them, the room at row 3,
/// column 3 is a `Cross`, and no room is a dead end.
pub open spec fn is_generated_map(rows: Seq<Seq<MapTile>>, width: nat, height: nat) -> bool {
    &&& rows.len() == height
    &&& forall|y: int| 0 <= y < height ==> (#[trigger] rows[y]).len() == width
    &&& edge_legal(rows)
    &&& mutually_connected(rows)
    &&& 3 < width && 3 < height ==> rows[3][3] == MapTile::Cross
    &&& forall|y: int, x: int|
        0 <= y < height && 0 <= x < width ==> !(#[trigger] rows[y][x]).is_dead_end()
}

/// Generates a map as `generate_map` does, trying again after a failure: the
/// map is that of the first attempt to succeed. Fails when `attempts`
/// attempts have all failed, and at once where `attempts` is zero.
pub fn generate_map_within(width: usize, height: usize, attempts: u32) -> (map: Result<
    Vec<Vec<MapTile>>,
    PossibilityError,
>)
    requires
        width > 0,
        height > 0,
    ensures
        exists|streams: Seq<Seq<u64>>| #[trigger]
            is_outcome_of(streams, width as nat, height as nat, attempts as nat, layout_of(map)),
        attempts == 0 ==> map is Err,
        map matches Ok(rows) ==> is_generated_map(rows_of(rows), width as nat, height as nat),
{
    let ghost mut streams: Seq<Seq<u64>> = Seq::empty();
    let mut tried: u32 = 0;
    while tried < attempts
        invariant
            width > 0,
            height > 0,
            tried <= attempts,
            streams.len() == tried,
            forall|i: int|
                0 <= i < streams.len() ==> generated(
                    width as nat,
                    height as nat,
                    #[trigger] streams[i],
                ) is None,
        decreases attempts - tried,
    {
        let attempt = generate_map(width, height);
        proof {
            let draws = choose|draws: Seq<u64>|
                match #[trigger] generated(width as nat, height as nat, draws) {
                    Some(layout) => attempt matches Ok(rows) && rows_of(rows) == layout,
                    None => attempt is Err,
                };
            streams = streams.push(draws);
        }
        match attempt {
            Ok(rows) => {
                assert(is_outcome_of(
                    streams,
                    width as nat,
                    height as nat,
                    attempts as nat,
                    layout_of(Ok::<Vec<Vec<MapTile>>, PossibilityError>(rows)),
                ));
                return Ok(rows);
            },
            Err(_) => {},
        }
        tried += 1;
    }
    assert(is_outcome_of(streams, width as nat, height as nat, attempts as nat, None));
    Err(PossibilityError)
}

/// The layout of the map that generation came back with, or `None` where it
/// failed.
pub open spec fn layout_of(map: Result<Vec<Vec<MapTile>>, PossibilityError>) -> Option<
    Seq<Seq<MapTile>>,
> {
    match map {
        Ok(rows) => Some(rows_of(rows)),
        Err(_) => None,
    }
}

/// Whether `outcome` is how generation within `attempts` attempts ends when
/// the attempts it makes draw the random streams `streams`, one each. It
/// makes no more than `attempts` of them, and every one but the last fails.
/// A map is what the last attempt generates; a failure is the failure of
/// all `attempts` attempts.
pub open spec fn is_outcome_of(
    streams: Seq<Seq<u64>>,
    width: nat,
    height: nat,
    attempts: nat,
    outcome: Option<Seq<Seq<MapTile>>>,
) -> bool {
    &&& streams.len() <= attempts
    &&& forall|i: int|
        0 <= i < streams.len() - 1 ==> generated(width, height, #[trigger] streams[i]) is None
    &&& match outcome {
        Some(layout) => streams.len() > 0 && generated(width, height, streams.last()) == Some(
            layout,
        ),
        None => streams.len() == attempts && (streams.len() > 0 ==> generated(
            width,
            height,
            streams.last(),
        ) is None),
    }
}

} // verus!
