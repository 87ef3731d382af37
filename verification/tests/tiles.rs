use potion_roguelike::map::MapTile;
use potion_roguelike::procedural::{CellLocation, Direction, SPCell};

fn directions() -> [Direction; 4] {
    [Direction::North, Direction::East, Direction::South, Direction::West]
}

fn cell_of(positions: Vec<MapTile>) -> SPCell<MapTile> {
    SPCell::new(CellLocation { x: 0, y: 0 }, positions)
}

#[test]
fn opposite_is_an_involution() {
    for dir in directions() {
        assert_eq!(dir.opposite().opposite(), dir);
        assert_ne!(dir.opposite(), dir);
    }
    assert_eq!(Direction::North.opposite(), Direction::South);
    assert_eq!(Direction::East.opposite(), Direction::West);
}

#[test]
fn units_of_opposite_directions_cancel() {
    assert_eq!(Direction::North.unit(), (0, 1));
    assert_eq!(Direction::East.unit(), (1, 0));
    assert_eq!(Direction::South.unit(), (0, -1));
    assert_eq!(Direction::West.unit(), (-1, 0));
    for dir in directions() {
        let there = dir.unit();
        let back = dir.opposite().unit();
        assert_eq!((there.0 + back.0, there.1 + back.1), (0, 0));
    }
    assert_eq!(Direction::all(), directions().to_vec());
}

#[test]
fn every_tile_has_its_connections() {
    let table: Vec<(MapTile, Vec<Direction>)> = vec![
        (MapTile::NPipe, vec![Direction::North, Direction::South]),
        (MapTile::EPipe, vec![Direction::West, Direction::East]),
        (MapTile::NElbow, vec![Direction::North, Direction::West]),
        (MapTile::EElbow, vec![Direction::East, Direction::North]),
        (MapTile::SElbow, vec![Direction::South, Direction::East]),
        (MapTile::WElbow, vec![Direction::West, Direction::South]),
        (MapTile::NEnd, vec![Direction::North]),
        (MapTile::EEnd, vec![Direction::East]),
        (MapTile::SEnd, vec![Direction::South]),
        (MapTile::WEnd, vec![Direction::West]),
        (MapTile::NTee, vec![Direction::North, Direction::West, Direction::South]),
        (MapTile::ETee, vec![Direction::East, Direction::North, Direction::West]),
        (MapTile::STee, vec![Direction::South, Direction::East, Direction::North]),
        (MapTile::WTee, vec![Direction::West, Direction::South, Direction::East]),
        (MapTile::Empty, vec![]),
        (
            MapTile::Cross,
            vec![Direction::West, Direction::North, Direction::East, Direction::South],
        ),
    ];
    assert_eq!(table.len(), 16);
    for (tile, sides) in &table {
        assert_eq!(MapTile::tile_connections(tile).to_vec(), *sides);
        for dir in directions() {
            assert_eq!(tile.conns_to(dir), sides.contains(&dir));
        }
    }
}

#[test]
fn cross_opens_everywhere_and_empty_nowhere() {
    assert_eq!(MapTile::tile_connections(&MapTile::Cross).len(), 4);
    assert_eq!(MapTile::tile_connections(&MapTile::Empty).len(), 0);
    for dir in directions() {
        assert!(MapTile::Cross.conns_to(dir));
        assert!(!MapTile::Empty.conns_to(dir));
    }
}

#[test]
fn all_lists_sixteen_different_tiles() {
    let all = MapTile::all();
    assert_eq!(all.len(), 16);
    for (i, a) in all.iter().enumerate() {
        for (j, b) in all.iter().enumerate() {
            assert_eq!(a == b, i == j);
        }
    }
    assert_eq!(all[0], MapTile::NPipe);
    assert_eq!(all[14], MapTile::Empty);
    assert_eq!(all[15], MapTile::Cross);
}

#[test]
fn no_end_leaves_out_the_four_dead_ends() {
    let no_end = MapTile::no_end();
    assert_eq!(no_end.len(), 12);
    for tile in MapTile::all() {
        let dead_end = matches!(
            tile,
            MapTile::NEnd | MapTile::EEnd | MapTile::SEnd | MapTile::WEnd
        );
        assert_eq!(no_end.contains(&tile), !dead_end);
        assert_eq!(MapTile::tile_connections(&tile).len() == 1, dead_end);
    }
    assert_eq!(no_end[10], MapTile::Cross);
    assert_eq!(no_end[11], MapTile::Empty);
}

#[test]
fn can_connect_to_asks_for_any_tile_with_the_opening() {
    let cell = cell_of(vec![MapTile::NEnd, MapTile::EPipe]);
    assert!(MapTile::can_connect_to(&cell, Direction::North));
    assert!(MapTile::can_connect_to(&cell, Direction::East));
    assert!(MapTile::can_connect_to(&cell, Direction::West));
    assert!(!MapTile::can_connect_to(&cell, Direction::South));
    let nothing = cell_of(vec![]);
    let empty = cell_of(vec![MapTile::Empty]);
    for dir in directions() {
        assert!(!MapTile::can_connect_to(&nothing, dir));
        assert!(!MapTile::can_connect_to(&empty, dir));
    }
}

#[test]
fn remove_positions_conn_to_drops_the_tiles_with_the_opening() {
    let kept = MapTile::remove_positions_conn_to(Direction::North, MapTile::all());
    assert_eq!(
        kept,
        vec![
            MapTile::EPipe,
            MapTile::SElbow,
            MapTile::WElbow,
            MapTile::EEnd,
            MapTile::SEnd,
            MapTile::WEnd,
            MapTile::WTee,
            MapTile::Empty,
        ]
    );
    assert_eq!(
        MapTile::remove_positions_conn_to(Direction::West, vec![MapTile::EPipe, MapTile::EPipe]),
        vec![]
    );
    assert_eq!(MapTile::remove_positions_conn_to(Direction::East, vec![]), vec![]);
}

#[test]
fn remove_not_connecting_keeps_the_tiles_with_the_opening() {
    let kept = MapTile::remove_not_connecting(Direction::West, MapTile::all());
    assert_eq!(
        kept,
        vec![
            MapTile::EPipe,
            MapTile::NElbow,
            MapTile::WElbow,
            MapTile::WEnd,
            MapTile::NTee,
            MapTile::ETee,
            MapTile::WTee,
            MapTile::Cross,
        ]
    );
    for dir in directions() {
        let with = MapTile::remove_not_connecting(dir, MapTile::all());
        let without = MapTile::remove_positions_conn_to(dir, MapTile::all());
        assert_eq!(with.len(), 8);
        assert_eq!(without.len(), 8);
        for tile in MapTile::all() {
            assert_ne!(with.contains(&tile), without.contains(&tile));
        }
    }
}

#[test]
fn remove_empty_drops_only_empty() {
    assert_eq!(MapTile::remove_empty(MapTile::all()).len(), 15);
    assert_eq!(
        MapTile::remove_empty(vec![MapTile::Empty, MapTile::Cross, MapTile::Empty, MapTile::NEnd]),
        vec![MapTile::Cross, MapTile::NEnd]
    );
    assert_eq!(MapTile::remove_empty(vec![MapTile::Empty]), vec![]);
}

#[test]
fn filter_for_neighbor_only_narrows_where_the_neighbor_cannot_open_back() {
    let domain = vec![MapTile::EEnd, MapTile::NPipe, MapTile::Cross, MapTile::Empty];
    // The neighbour to the east can still open to the west: nothing goes.
    let open = cell_of(vec![MapTile::NPipe, MapTile::WEnd]);
    assert_eq!(MapTile::filter_for_neighbor(Direction::East, domain.clone(), &open), domain);
    // It cannot: the tiles that open to the east go.
    let shut = cell_of(vec![MapTile::NPipe, MapTile::EEnd]);
    assert_eq!(
        MapTile::filter_for_neighbor(Direction::East, domain.clone(), &shut),
        vec![MapTile::NPipe, MapTile::Empty]
    );
    // What counts is the side that faces this cell, not the side asked about.
    assert_eq!(
        MapTile::filter_for_neighbor(Direction::West, domain.clone(), &shut),
        domain
    );
    let none = cell_of(vec![]);
    assert_eq!(
        MapTile::filter_for_neighbor(Direction::North, domain, &none),
        vec![MapTile::EEnd, MapTile::Empty]
    );
}
