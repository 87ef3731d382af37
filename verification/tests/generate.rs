use potion_roguelike::map::{
    all_table_values, generate_map, generate_map_with, generate_map_within, no_end_table_value,
    MapTile,
};
use potion_roguelike::procedural::{Direction, PossibilityError};

fn is_dead_end(tile: &MapTile) -> bool {
    matches!(tile, MapTile::NEnd | MapTile::EEnd | MapTile::SEnd | MapTile::WEnd)
}

fn tile_at(map: &[Vec<MapTile>], x: i64, y: i64) -> Option<MapTile> {
    if x < 0 || y < 0 {
        return None;
    }
    map.get(y as usize).and_then(|row| row.get(x as usize)).copied()
}

/// No room opens onto the outside, and rooms side by side agree on the
/// opening between them.
fn assert_sound(map: &[Vec<MapTile>]) {
    for (y, row) in map.iter().enumerate() {
        for (x, tile) in row.iter().enumerate() {
            for dir in Direction::all() {
                let step = dir.unit();
                let beyond = tile_at(map, x as i64 + step.0 as i64, y as i64 + step.1 as i64);
                match beyond {
                    None => assert!(!tile.conns_to(dir), "{tile:?} at ({x}, {y}) opens {dir:?}"),
                    Some(other) => assert_eq!(
                        tile.conns_to(dir),
                        other.conns_to(dir.opposite()),
                        "{tile:?} at ({x}, {y}) and {other:?} to the {dir:?}"
                    ),
                }
            }
        }
    }
}

fn solving_draws() -> Vec<Vec<u64>> {
    vec![
        vec![
            541, 37, 51, 84, 24, 96, 33, 85, 64, 48, 68, 85, 11, 7, 46, 32, 37, 23, 5, 46, 114,
            36, 188, 163,
        ],
        vec![
            173, 67, 1, 20, 60, 64, 70, 8, 93, 28, 37, 28, 45, 32, 31, 19, 181, 153, 183, 152,
            473, 197, 498, 199,
        ],
        vec![
            538, 90, 74, 99, 10, 87, 99, 17, 45, 46, 73, 2, 13, 49, 26, 21, 91, 30, 176, 189,
            165, 162, 593, 587,
        ],
    ]
}

#[test]
fn tables_pair_every_tile_with_a_weight() {
    let (tiles, weights) = no_end_table_value();
    assert_eq!(tiles, MapTile::no_end());
    assert_eq!(weights, vec![50; 12]);
    let (tiles, weights) = all_table_values();
    assert_eq!(tiles, MapTile::all());
    assert_eq!(weights, vec![50, 50, 50, 50, 50, 80, 80, 80, 80, 80, 80, 80, 80, 50, 1, 50]);
}

#[test]
fn a_stream_generates_its_map() {
    let map = generate_map_with(5, 5, &solving_draws()[1]);
    let expected = vec![
        vec![MapTile::EElbow, MapTile::EPipe, MapTile::EPipe, MapTile::NElbow, MapTile::Empty],
        vec![MapTile::SElbow, MapTile::EPipe, MapTile::ETee, MapTile::WTee, MapTile::NElbow],
        vec![MapTile::Empty, MapTile::EElbow, MapTile::WTee, MapTile::ETee, MapTile::NTee],
        vec![MapTile::Empty, MapTile::SElbow, MapTile::ETee, MapTile::Cross, MapTile::NTee],
        vec![MapTile::Empty, MapTile::Empty, MapTile::SElbow, MapTile::WTee, MapTile::WElbow],
    ];
    assert_eq!(map, Ok(expected));
}

#[test]
fn another_stream_generates_another_map() {
    let map = generate_map_with(5, 5, &solving_draws()[0]);
    let expected = vec![
        vec![MapTile::Empty, MapTile::EElbow, MapTile::NElbow, MapTile::Empty, MapTile::Empty],
        vec![MapTile::Empty, MapTile::NPipe, MapTile::NPipe, MapTile::EElbow, MapTile::NElbow],
        vec![MapTile::Empty, MapTile::SElbow, MapTile::WElbow, MapTile::NPipe, MapTile::NPipe],
        vec![MapTile::Empty, MapTile::Empty, MapTile::EElbow, MapTile::Cross, MapTile::NTee],
        vec![MapTile::Empty, MapTile::Empty, MapTile::SElbow, MapTile::WTee, MapTile::WElbow],
    ];
    assert_eq!(map, Ok(expected));
}

#[test]
fn generated_maps_have_the_cross_and_no_dead_end() {
    for draws in solving_draws() {
        let map = generate_map_with(5, 5, &draws).unwrap();
        assert_eq!(map.len(), 5);
        assert_eq!(map.iter().map(|row| row.len()).sum::<usize>(), 25);
        assert!(map.iter().all(|row| row.len() == 5));
        assert_eq!(map[3][3], MapTile::Cross);
        assert!(map.iter().flatten().all(|tile| !is_dead_end(tile)));
        assert_sound(&map);
    }
}

#[test]
fn the_same_stream_generates_the_same_map() {
    for draws in solving_draws() {
        let first = generate_map_with(5, 5, &draws);
        let second = generate_map_with(5, 5, &draws);
        assert!(first.is_ok());
        assert_eq!(first, second);
    }
    let failing: Vec<u64> = vec![0, 1, 2];
    assert_eq!(generate_map_with(5, 5, &failing), Err(PossibilityError));
    assert_eq!(generate_map_with(5, 5, &failing), generate_map_with(5, 5, &failing));
}

#[test]
fn a_stream_that_runs_dry_goes_on_with_zeros() {
    // The first collapse picks a straight pipe for the corner, which opens
    // onto the outside.
    assert_eq!(generate_map_with(5, 5, &vec![]), Err(PossibilityError));
    assert_eq!(generate_map_with(5, 5, &vec![0; 30]), Err(PossibilityError));
}

#[test]
fn a_lone_room_is_empty() {
    assert_eq!(generate_map_with(1, 1, &vec![500]), Ok(vec![vec![MapTile::Empty]]));
    assert_eq!(generate_map_with(1, 1, &vec![549]), Ok(vec![vec![MapTile::Empty]]));
    assert_eq!(generate_map_with(1, 1, &vec![1100]), Ok(vec![vec![MapTile::Empty]]));
    assert_eq!(generate_map_with(1, 1, &vec![0]), Err(PossibilityError));
    assert_eq!(generate_map_with(1, 1, &vec![550]), Err(PossibilityError));
    assert_eq!(generate_map_with(1, 1, &vec![600]), Err(PossibilityError));
}

#[test]
fn a_cross_in_the_corner_cannot_be_met() {
    // In a map of four by four rooms the seeded cross sits in a corner.
    assert_eq!(generate_map_with(4, 4, &vec![200, 3, 4]), Err(PossibilityError));
    assert_eq!(generate_map_with(4, 4, &vec![150]), Err(PossibilityError));
    for _ in 0..50 {
        assert_eq!(generate_map(4, 4), Err(PossibilityError));
    }
}

#[test]
fn generate_map_returns_a_sound_map_or_fails() {
    let mut maps = 0;
    for _ in 0..2000 {
        match generate_map(5, 5) {
            Ok(map) => {
                maps += 1;
                assert_eq!(map.len(), 5);
                assert!(map.iter().all(|row| row.len() == 5));
                assert_eq!(map[3][3], MapTile::Cross);
                assert!(map.iter().flatten().all(|tile| !is_dead_end(tile)));
                assert_sound(&map);
            }
            Err(error) => assert_eq!(error, PossibilityError),
        }
    }
    assert!(maps <= 2000);
}

#[test]
fn small_maps_generated_at_random_are_sound() {
    // Without dead ends only two maps of two by two rooms are sound: a ring
    // and four empty rooms. About one attempt in eleven finds one of them.
    let ring = vec![
        vec![MapTile::EElbow, MapTile::NElbow],
        vec![MapTile::SElbow, MapTile::WElbow],
    ];
    let empty = vec![vec![MapTile::Empty; 2]; 2];
    let mut maps = 0;
    for _ in 0..3000 {
        if let Ok(map) = generate_map(2, 2) {
            maps += 1;
            assert!(map == ring || map == empty, "{map:?}");
            assert_sound(&map);
        }
    }
    assert!(maps > 0);
}

#[test]
fn generation_gives_up_after_its_attempts() {
    assert_eq!(generate_map_within(2, 2, 0), Err(PossibilityError));
    // A cross in the corner cannot be met, however often it is tried.
    assert_eq!(generate_map_within(4, 4, 200), Err(PossibilityError));
}

#[test]
fn generation_tries_again_after_a_failure() {
    // One attempt in eleven solves a map of two by two rooms: a thousand
    // attempts that all fail are as good as impossible.
    let map = generate_map_within(2, 2, 1000).unwrap();
    assert_eq!(map.len(), 2);
    assert_sound(&map);
    let lone = generate_map_within(1, 1, 1000).unwrap();
    assert_eq!(lone, vec![vec![MapTile::Empty]]);
}
