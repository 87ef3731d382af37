use potion_roguelike::map::{all_table_values, collapse_map_geometry, no_end_table_value, MapTile};
use potion_roguelike::procedural::cell::copy_positions;
use potion_roguelike::procedural::weights::{choose_weighted, weight};
use potion_roguelike::procedural::{
    CellLocation, ConstructionError, Direction, PossibilityError, SPCell, SuperPositionGrid,
};

fn at(x: usize, y: usize) -> CellLocation {
    CellLocation { x, y }
}

fn domains<T: Copy>(grid: &SuperPositionGrid<T>) -> Vec<Vec<Vec<T>>> {
    grid.peek_render()
        .iter()
        .map(|row| row.iter().map(|cell| cell.positions.clone()).collect())
        .collect()
}

fn keep(_grid: &SuperPositionGrid<u8>, cell: &SPCell<u8>) -> Vec<u8> {
    cell.positions.clone()
}

fn follow(grid: &SuperPositionGrid<u8>, cell: &SPCell<u8>) -> Vec<u8> {
    match grid.neighbor(cell, Direction::West) {
        Some(west) => west.positions.clone(),
        None => cell.positions.clone(),
    }
}

fn grow(_grid: &SuperPositionGrid<u8>, cell: &SPCell<u8>) -> Vec<u8> {
    let mut more = cell.positions.clone();
    more.push(0);
    more
}

fn swap(_grid: &SuperPositionGrid<u8>, _cell: &SPCell<u8>) -> Vec<u8> {
    vec![8, 9]
}

#[test]
fn new_grid_gives_every_cell_the_initial_domain() {
    let grid = SuperPositionGrid::new(2, 3, &vec![7u8, 8, 9]);
    assert_eq!(grid.height(), 2);
    assert_eq!(grid.width(), 3);
    let cells = grid.peek_render();
    assert_eq!(cells.len(), 2);
    for (y, row) in cells.iter().enumerate() {
        assert_eq!(row.len(), 3);
        for (x, cell) in row.iter().enumerate() {
            assert_eq!(cell.positions, vec![7, 8, 9]);
            assert_eq!(cell.location, at(x, y));
            assert!(!cell.is_collapsed());
        }
    }
}

#[test]
fn cell_lookup_knows_the_bounds() {
    let grid = SuperPositionGrid::new(2, 3, &vec![1u8]);
    assert_eq!(grid.cell(at(2, 1)).map(|cell| cell.location), Some(at(2, 1)));
    assert!(grid.cell(at(3, 0)).is_none());
    assert!(grid.cell(at(0, 2)).is_none());
}

#[test]
fn neighbor_stops_at_the_edge() {
    let grid = SuperPositionGrid::new(2, 3, &vec![1u8]);
    let corner = grid.cell(at(0, 0)).unwrap();
    assert!(grid.neighbor(corner, Direction::South).is_none());
    assert!(grid.neighbor(corner, Direction::West).is_none());
    assert_eq!(grid.neighbor(corner, Direction::North).unwrap().location, at(0, 1));
    assert_eq!(grid.neighbor(corner, Direction::East).unwrap().location, at(1, 0));
    let far = grid.cell(at(2, 1)).unwrap();
    assert!(grid.neighbor(far, Direction::North).is_none());
    assert!(grid.neighbor(far, Direction::East).is_none());
    assert_eq!(grid.neighbor(far, Direction::South).unwrap().location, at(2, 0));
    assert_eq!(grid.neighbor(far, Direction::West).unwrap().location, at(1, 1));
}

#[test]
fn neighbor_of_a_cell_off_the_grid() {
    let grid = SuperPositionGrid::new(2, 2, &vec![1u8]);
    let beside = SPCell::new(at(2, 0), vec![1u8]);
    assert_eq!(grid.neighbor(&beside, Direction::West).unwrap().location, at(1, 0));
    assert!(grid.neighbor(&beside, Direction::East).is_none());
    assert!(grid.neighbor(&beside, Direction::North).is_none());
    let far = SPCell::new(at(usize::MAX, usize::MAX), vec![1u8]);
    for dir in Direction::all() {
        assert!(grid.neighbor(&far, dir).is_none());
    }
}

#[test]
fn override_positions_replaces_one_domain() {
    let mut grid = SuperPositionGrid::new(2, 2, &vec![1u8, 2]);
    grid.override_positions(at(1, 0), vec![5]);
    assert_eq!(
        domains(&grid),
        vec![vec![vec![1, 2], vec![5]], vec![vec![1, 2], vec![1, 2]]]
    );
    grid.override_positions(at(2, 0), vec![6]);
    grid.override_positions(at(0, 2), vec![6]);
    assert_eq!(
        domains(&grid),
        vec![vec![vec![1, 2], vec![5]], vec![vec![1, 2], vec![1, 2]]]
    );
}

#[test]
fn render_needs_every_cell_resolved() {
    let mut grid = SuperPositionGrid::new(2, 2, &vec![4u8]);
    assert_eq!(grid.render(), Ok(vec![vec![4, 4], vec![4, 4]]));
    grid.override_positions(at(0, 1), vec![9]);
    assert_eq!(grid.render(), Ok(vec![vec![4, 4], vec![9, 4]]));
    grid.override_positions(at(1, 1), vec![1, 2]);
    assert_eq!(grid.render(), Err(PossibilityError));
    grid.override_positions(at(1, 1), vec![]);
    assert_eq!(grid.render(), Err(PossibilityError));
    assert!(grid.is_contradicted());
}

#[test]
fn possibility_error_has_a_message() {
    assert_eq!(PossibilityError.message(), "no remaining candidates for some cell");
}

#[test]
fn weight_is_looked_up_by_value() {
    let values = vec![3u8, 5, 3];
    let weights = vec![10u32, 20, 30];
    assert_eq!(weight((&values, &weights), 3), 10);
    assert_eq!(weight((&values, &weights), 5), 20);
    assert_eq!(weight((&values, &weights), 4), 0);
    // An entry without a weight beside it counts for nothing.
    let short = vec![10u32];
    assert_eq!(weight((&values, &short), 5), 0);
    let table = all_table_values();
    assert_eq!(weight((&table.0, &table.1), MapTile::Empty), 1);
    assert_eq!(weight((&table.0, &table.1), MapTile::WElbow), 80);
    let table = no_end_table_value();
    assert_eq!(weight((&table.0, &table.1), MapTile::Cross), 50);
    assert_eq!(weight((&table.0, &table.1), MapTile::NEnd), 0);
}

#[test]
fn choose_weighted_walks_the_running_total() {
    let table = all_table_values();
    let domain = MapTile::all();
    let expected: Vec<(u64, usize)> = vec![
        (0, 0),
        (49, 0),
        (50, 1),
        (250, 5),
        (329, 5),
        (330, 6),
        (940, 14),
        (941, 15),
        (990, 15),
        (991, 0),
        (u64::MAX, 12),
    ];
    for (draw, index) in expected {
        assert_eq!(choose_weighted(&domain, (&table.0, &table.1), draw), Some(index));
    }
}

#[test]
fn choose_weighted_skips_values_without_weight() {
    let table = no_end_table_value();
    let domain = MapTile::all();
    assert_eq!(choose_weighted(&domain, (&table.0, &table.1), 0), Some(0));
    assert_eq!(choose_weighted(&domain, (&table.0, &table.1), 300), Some(10));
    assert_eq!(choose_weighted(&domain, (&table.0, &table.1), 500), Some(14));
    assert_eq!(choose_weighted(&domain, (&table.0, &table.1), 599), Some(15));
    for draw in 0..1200u64 {
        let index = choose_weighted(&domain, (&table.0, &table.1), draw).unwrap();
        assert!(!(6..10).contains(&index));
    }
}

#[test]
fn choose_weighted_is_uniform_without_any_weight() {
    let table = no_end_table_value();
    let domain = vec![MapTile::NEnd, MapTile::EEnd];
    assert_eq!(choose_weighted(&domain, (&table.0, &table.1), 5), Some(1));
    assert_eq!(choose_weighted(&domain, (&table.0, &table.1), 6), Some(0));
}

#[test]
fn choose_weighted_has_nothing_to_choose_from_an_empty_domain() {
    let table = no_end_table_value();
    assert_eq!(choose_weighted(&vec![], (&table.0, &table.1), 5), None);
}

#[test]
fn select_takes_the_least_certain_cell_first_in_row_major_order() {
    let mut grid = SuperPositionGrid::new(2, 2, &vec![1u8, 2, 3]);
    assert_eq!(grid.select(), Some(at(0, 0)));
    grid.override_positions(at(1, 1), vec![7, 8]);
    assert_eq!(grid.select(), Some(at(1, 1)));
    grid.override_positions(at(1, 0), vec![7, 8]);
    assert_eq!(grid.select(), Some(at(1, 0)));
    grid.override_positions(at(0, 0), vec![9]);
    assert_eq!(grid.select(), Some(at(1, 0)));
    grid.override_positions(at(0, 1), vec![]);
    assert_eq!(grid.select(), Some(at(0, 1)));
}

#[test]
fn select_finds_nothing_in_a_resolved_grid() {
    let grid = SuperPositionGrid::new(3, 2, &vec![1u8]);
    assert_eq!(grid.select(), None);
}

#[test]
fn collapse_cell_leaves_the_chosen_value() {
    let values = vec![1u8, 2, 3];
    let weights = vec![10u32, 0, 5];
    let mut grid = SuperPositionGrid::new(1, 2, &values);
    assert_eq!(grid.collapse_cell(at(1, 0), (&values, &weights), 12), Ok(()));
    assert_eq!(domains(&grid), vec![vec![vec![1, 2, 3], vec![3]]]);
    assert_eq!(grid.collapse_cell(at(0, 0), (&values, &weights), 15), Ok(()));
    assert_eq!(domains(&grid), vec![vec![vec![1], vec![3]]]);
    // A resolved cell collapses to itself.
    assert_eq!(grid.collapse_cell(at(0, 0), (&values, &weights), 7), Ok(()));
    assert_eq!(domains(&grid), vec![vec![vec![1], vec![3]]]);
}

#[test]
fn collapse_cell_fails_where_there_is_nothing_to_choose() {
    let values = vec![1u8, 2, 3];
    let weights = vec![10u32, 0, 5];
    let mut grid = SuperPositionGrid::new(1, 2, &values);
    grid.override_positions(at(0, 0), vec![]);
    assert_eq!(grid.collapse_cell(at(0, 0), (&values, &weights), 1), Err(PossibilityError));
    assert_eq!(grid.collapse_cell(at(2, 0), (&values, &weights), 1), Err(PossibilityError));
    assert_eq!(grid.collapse_cell(at(0, 1), (&values, &weights), 1), Err(PossibilityError));
    assert_eq!(domains(&grid), vec![vec![vec![], vec![1, 2, 3]]]);
}

#[test]
fn try_new_names_what_is_missing() {
    let values = vec![1u8, 2];
    assert_eq!(
        SuperPositionGrid::try_new(0, 0, &Vec::<u8>::new()).err(),
        Some(ConstructionError::NoRows)
    );
    assert_eq!(SuperPositionGrid::try_new(0, 3, &values).err(), Some(ConstructionError::NoRows));
    assert_eq!(
        SuperPositionGrid::try_new(2, 0, &values).err(),
        Some(ConstructionError::NoColumns)
    );
    assert_eq!(
        SuperPositionGrid::try_new(2, 3, &Vec::<u8>::new()).err(),
        Some(ConstructionError::NoCandidates)
    );
    let grid = SuperPositionGrid::try_new(2, 3, &values).unwrap();
    assert_eq!(domains(&grid), vec![vec![vec![1, 2]; 3]; 2]);
}

#[test]
fn sweep_looks_at_the_grid_as_it_stood() {
    // Each cell takes over the domain of its western neighbour if that is
    // shorter. In one sweep the change moves one cell to the east, since
    // every cell is asked about the grid as it was before the sweep.
    let mut grid = SuperPositionGrid::new(1, 3, &vec![1u8, 2, 3]);
    grid.override_positions(at(0, 0), vec![9]);
    assert!(grid.sweep(&follow));
    assert_eq!(domains(&grid), vec![vec![vec![9], vec![9], vec![1, 2, 3]]]);
    assert!(grid.sweep(&follow));
    assert_eq!(domains(&grid), vec![vec![vec![9], vec![9], vec![9]]]);
    assert!(!grid.sweep(&follow));
}

#[test]
fn sweep_takes_no_proposal_that_is_not_shorter() {
    let mut grid = SuperPositionGrid::new(2, 2, &vec![1u8, 2]);
    assert!(!grid.sweep(&grow));
    assert!(!grid.sweep(&swap));
    assert_eq!(domains(&grid), vec![vec![vec![1, 2]; 2]; 2]);
    assert_eq!(grid.propagate(&grow), Ok(()));
}

#[test]
fn propagate_narrows_a_fresh_map_to_what_the_edges_allow() {
    let mut grid = SuperPositionGrid::new(2, 2, &MapTile::all());
    assert_eq!(grid.propagate(&collapse_map_geometry), Ok(()));
    assert_eq!(
        domains(&grid),
        vec![
            vec![
                vec![MapTile::EElbow, MapTile::NEnd, MapTile::EEnd, MapTile::Empty],
                vec![MapTile::NElbow, MapTile::NEnd, MapTile::WEnd, MapTile::Empty],
            ],
            vec![
                vec![MapTile::SElbow, MapTile::EEnd, MapTile::SEnd, MapTile::Empty],
                vec![MapTile::WElbow, MapTile::SEnd, MapTile::WEnd, MapTile::Empty],
            ],
        ]
    );
    let mut grid = SuperPositionGrid::new(3, 3, &MapTile::all());
    assert_eq!(grid.propagate(&collapse_map_geometry), Ok(()));
    let sizes: Vec<Vec<usize>> =
        domains(&grid).iter().map(|row| row.iter().map(|cell| cell.len()).collect()).collect();
    assert_eq!(sizes, vec![vec![4, 8, 4], vec![8, 16, 8], vec![4, 8, 4]]);
}

#[test]
fn propagate_reports_a_contradiction_at_once() {
    let mut grid = SuperPositionGrid::new(1, 1, &vec![MapTile::Cross]);
    assert_eq!(grid.propagate(&collapse_map_geometry), Err(PossibilityError));
    assert!(grid.is_contradicted());
    assert_eq!(domains(&grid), vec![vec![Vec::<MapTile>::new()]]);
}

#[test]
fn a_lone_cell_can_only_be_empty() {
    let table = all_table_values();
    let mut grid = SuperPositionGrid::new(1, 1, &MapTile::all());
    assert_eq!(
        grid.full_collapse_with(collapse_map_geometry, (&table.0, &table.1), &vec![940]),
        Ok(())
    );
    assert_eq!(grid.render(), Ok(vec![vec![MapTile::Empty]]));

    let mut grid = SuperPositionGrid::new(1, 1, &MapTile::all());
    assert_eq!(
        grid.full_collapse_with(collapse_map_geometry, (&table.0, &table.1), &vec![0]),
        Err(PossibilityError)
    );
    assert_eq!(grid.render(), Err(PossibilityError));
    assert!(grid.is_contradicted());
}

#[test]
fn a_lone_cell_solved_at_random_is_empty_or_fails() {
    let table = all_table_values();
    let mut solved = 0;
    for _ in 0..3000 {
        let mut grid = SuperPositionGrid::new(1, 1, &MapTile::all());
        match grid.full_collapse(collapse_map_geometry, (&table.0, &table.1)) {
            Ok(()) => {
                solved += 1;
                assert_eq!(grid.render(), Ok(vec![vec![MapTile::Empty]]));
            }
            Err(PossibilityError) => {
                assert!(grid.is_contradicted());
                assert_eq!(grid.render(), Err(PossibilityError));
            }
        }
    }
    // One draw in 991 picks `Empty`; 3000 fair draws that all miss are
    // as good as impossible, and so are 3000 that all hit.
    assert!(solved < 3000);
}

#[test]
fn beside_an_east_end_only_tiles_that_stay_inside_survive() {
    let mut grid = SuperPositionGrid::new(1, 2, &MapTile::all());
    grid.override_positions(at(0, 0), vec![MapTile::EEnd]);
    assert_eq!(grid.propagate(&collapse_map_geometry), Ok(()));
    assert_eq!(
        domains(&grid),
        vec![vec![vec![MapTile::EEnd], vec![MapTile::WEnd, MapTile::Empty]]]
    );
    for tile in &domains(&grid)[0][1] {
        for dir in [Direction::North, Direction::East, Direction::South] {
            assert!(!tile.conns_to(dir));
        }
    }

    // Of the two survivors the first weighs 80 and the second 1.
    let table = all_table_values();
    let mut met = SuperPositionGrid::new(1, 2, &MapTile::all());
    met.override_positions(at(0, 0), vec![MapTile::EEnd]);
    assert_eq!(met.propagate(&collapse_map_geometry), Ok(()));
    assert_eq!(
        met.full_collapse_with(collapse_map_geometry, (&table.0, &table.1), &vec![0]),
        Ok(())
    );
    assert_eq!(met.render(), Ok(vec![vec![MapTile::EEnd, MapTile::WEnd]]));

    // Choosing `Empty` on the right leaves the east end without a partner.
    let mut unmet = SuperPositionGrid::new(1, 2, &MapTile::all());
    unmet.override_positions(at(0, 0), vec![MapTile::EEnd]);
    assert_eq!(unmet.propagate(&collapse_map_geometry), Ok(()));
    assert_eq!(
        unmet.full_collapse_with(collapse_map_geometry, (&table.0, &table.1), &vec![80]),
        Err(PossibilityError)
    );
    assert_eq!(domains(&unmet), vec![vec![vec![], vec![MapTile::Empty]]]);

    // Solved from the start, without propagating first, the right cell
    // still has every tile to choose from.
    let mut fresh = SuperPositionGrid::new(1, 2, &MapTile::all());
    fresh.override_positions(at(0, 0), vec![MapTile::EEnd]);
    assert_eq!(
        fresh.full_collapse_with(collapse_map_geometry, (&table.0, &table.1), &vec![570]),
        Ok(())
    );
    assert_eq!(fresh.render(), Ok(vec![vec![MapTile::EEnd, MapTile::WEnd]]));
}

#[test]
fn a_resolved_grid_is_left_alone() {
    let table = all_table_values();
    let mut grid = SuperPositionGrid::new(1, 1, &vec![MapTile::Cross]);
    assert_eq!(
        grid.full_collapse_with(collapse_map_geometry, (&table.0, &table.1), &vec![1, 2, 3]),
        Ok(())
    );
    assert_eq!(grid.render(), Ok(vec![vec![MapTile::Cross]]));
}

#[test]
fn a_contradiction_made_by_the_constraint_is_reported() {
    let strip = |_grid: &SuperPositionGrid<u8>, cell: &SPCell<u8>| -> Vec<u8> {
        if cell.location == at(1, 1) {
            Vec::new()
        } else {
            cell.positions.clone()
        }
    };
    let values = vec![1u8, 2, 3];
    let weights = vec![1u32, 1, 1];
    let mut grid = SuperPositionGrid::new(3, 3, &values);
    assert_eq!(grid.full_collapse(strip, (&values, &weights)), Err(PossibilityError));
    assert!(grid.is_contradicted());
    assert!(grid.cell(at(1, 1)).unwrap().positions.is_empty());
    assert_eq!(grid.render(), Err(PossibilityError));

    let mut grid = SuperPositionGrid::new(3, 3, &values);
    assert_eq!(
        grid.full_collapse_with(strip, (&values, &weights), &vec![4]),
        Err(PossibilityError)
    );
    // The first cell had collapsed before the constraint struck.
    assert_eq!(grid.cell(at(0, 0)).unwrap().positions, vec![2]);
    assert!(grid.cell(at(1, 1)).unwrap().positions.is_empty());
}

#[test]
fn a_cell_without_candidates_fails_before_any_collapse() {
    let values = vec![1u8, 2];
    let weights = vec![1u32, 1];
    let mut grid = SuperPositionGrid::new(2, 2, &values);
    grid.override_positions(at(1, 1), vec![]);
    assert_eq!(grid.full_collapse(keep, (&values, &weights)), Err(PossibilityError));
    assert_eq!(
        domains(&grid),
        vec![vec![vec![1, 2], vec![1, 2]], vec![vec![1, 2], vec![]]]
    );
}

#[test]
fn without_constraint_every_cell_takes_what_its_draw_selects() {
    let values = vec![10u8, 20, 30];
    let weights = vec![1u32, 2, 3];
    let mut grid = SuperPositionGrid::new(2, 2, &values);
    // Draws 0, 1..=2 and 3..=5 select 10, 20 and 30; the stream goes on
    // with zeros where it ends.
    assert_eq!(grid.full_collapse_with(keep, (&values, &weights), &vec![5, 1, 6]), Ok(()));
    assert_eq!(grid.render(), Ok(vec![vec![30, 20], vec![10, 10]]));
}

#[test]
fn the_same_stream_solves_to_the_same_grid() {
    let table = all_table_values();
    let draws: Vec<u64> = vec![422, 210, 203, 62, 31, 161, 67, 166, 10];
    let mut first = SuperPositionGrid::new(3, 3, &MapTile::all());
    let mut second = SuperPositionGrid::new(3, 3, &MapTile::all());
    assert_eq!(
        first.full_collapse_with(collapse_map_geometry, (&table.0, &table.1), &draws),
        Ok(())
    );
    assert_eq!(
        second.full_collapse_with(collapse_map_geometry, (&table.0, &table.1), &draws),
        Ok(())
    );
    let expected = vec![
        vec![MapTile::EEnd, MapTile::WEnd, MapTile::Empty],
        vec![MapTile::NEnd, MapTile::EElbow, MapTile::WEnd],
        vec![MapTile::SEnd, MapTile::SElbow, MapTile::WEnd],
    ];
    assert_eq!(first.render(), Ok(expected.clone()));
    assert_eq!(second.render(), Ok(expected));
}

#[test]
fn a_copy_of_a_cell_is_its_equal() {
    let cell = SPCell::new(at(4, 2), vec![3u8, 1, 2]);
    let copy = cell.duplicate();
    assert_eq!(copy.positions, vec![3, 1, 2]);
    assert_eq!(copy.location, at(4, 2));
    assert_eq!(copy_positions(&cell.positions), cell.positions);
    assert_eq!(copy_positions(&Vec::<u8>::new()), Vec::<u8>::new());
    assert!(SPCell::new(at(0, 0), vec![7u8]).is_collapsed());
    assert!(!SPCell::new(at(0, 0), Vec::<u8>::new()).is_collapsed());
}

#[test]
fn the_geometry_keeps_the_tiles_whose_openings_can_be_met() {
    let mut grid = SuperPositionGrid::new(2, 2, &MapTile::all());
    // The cell to the north of the corner can only open to the east.
    grid.override_positions(at(0, 1), vec![MapTile::EEnd, MapTile::Empty]);
    let corner = grid.cell(at(0, 0)).unwrap();
    // South and west are off the grid, north cannot open back: what is
    // left opens to the east or nowhere.
    assert_eq!(collapse_map_geometry(&grid, corner), vec![MapTile::EEnd, MapTile::Empty]);
    let narrowed = SPCell::new(at(0, 0), vec![MapTile::Cross, MapTile::NPipe, MapTile::EEnd]);
    assert_eq!(collapse_map_geometry(&grid, &narrowed), vec![MapTile::EEnd]);
    // The cell is taken at its word about where it is.
    let elsewhere = SPCell::new(at(1, 1), vec![MapTile::SElbow, MapTile::WElbow, MapTile::SEnd]);
    assert_eq!(
        collapse_map_geometry(&grid, &elsewhere),
        vec![MapTile::WElbow, MapTile::SEnd]
    );
    let outside = SPCell::new(at(5, 5), vec![MapTile::Empty, MapTile::WEnd]);
    assert_eq!(collapse_map_geometry(&grid, &outside), vec![MapTile::Empty]);
}
