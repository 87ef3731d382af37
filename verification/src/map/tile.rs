use vstd::prelude::*;
use vstd::std_specs::cmp::PartialEqSpecImpl;
use crate::procedural::cell::SPCell;
use crate::procedural::direction::Direction;

verus! {

/// The shape of one room: which of its four sides are open.
#[derive(Clone, Copy, Debug, Eq, Hash)]
pub enum MapTile {
    // A straight pipe is named for its first opening; the second is opposite.
    NPipe,
    EPipe,
    // An elbow is named for its first opening; the second is one turn
    // counter-clockwise.
    NElbow,
    EElbow,
    SElbow,
    WElbow,
    // A dead end is named for its only opening.
    NEnd,
    EEnd,
    SEnd,
    WEnd,
    // A tee is named for its first opening; the other two follow
    // counter-clockwise.
    NTee,
    ETee,
    STee,
    WTee,
    Cross,
    Empty,
}

impl PartialEq for MapTile {
    fn eq(&self, other: &Self) -> (same: bool) {
        match (*self, *other) {
            (MapTile::NPipe, MapTile::NPipe) => true,
            (MapTile::EPipe, MapTile::EPipe) => true,
            (MapTile::NElbow, MapTile::NElbow) => true,
            (MapTile::EElbow, MapTile::EElbow) => true,
            (MapTile::SElbow, MapTile::SElbow) => true,
            (MapTile::WElbow, MapTile::WElbow) => true,
            (MapTile::NEnd, MapTile::NEnd) => true,
            (MapTile::EEnd, MapTile::EEnd) => true,
            (MapTile::SEnd, MapTile::SEnd) => true,
            (MapTile::WEnd, MapTile::WEnd) => true,
            (MapTile::NTee, MapTile::NTee) => true,
            (MapTile::ETee, MapTile::ETee) => true,
            (MapTile::STee, MapTile::STee) => true,
            (MapTile::WTee, MapTile::WTee) => true,
            (MapTile::Cross, MapTile::Cross) => true,
            (MapTile::Empty, MapTile::Empty) => true,
            _ => false,
        }
    }
}

impl PartialEqSpecImpl for MapTile {
    open spec fn obeys_eq_spec() -> bool {
        true
    }

    open spec fn eq_spec(&self, other: &Self) -> bool {
        *self == *other
    }
}

/// The tiles that have no opening towards `dir`.
pub open spec fn not_connecting(dir: Direction) -> spec_fn(MapTile) -> bool {
    |tile: MapTile| !tile.connects(dir)
}

/// The tiles that have an opening towards `dir`.
pub open spec fn connecting(dir: Direction) -> spec_fn(MapTile) -> bool {
    |tile: MapTile| tile.connects(dir)
}

/// Every tile but `Empty`.
pub open spec fn not_empty() -> spec_fn(MapTile) -> bool {
    |tile: MapTile| tile != MapTile::Empty
}

/// Whether some tile of `domain` has an opening towards `dir`.
pub open spec fn can_connect(domain: Seq<MapTile>, dir: Direction) -> bool {
    exists|i: int| 0 <= i < domain.len() && (#[trigger] domain[i]).connects(dir)
}

/// What is left of `domain` beside a neighbour in direction `dir` whose own
/// domain is `neighbor`: where no tile of the neighbour opens back, the
/// tiles that open towards it go; otherwise nothing changes.
pub open spec fn filtered_for_neighbor(
    dir: Direction,
    domain: Seq<MapTile>,
    neighbor: Seq<MapTile>,
) -> Seq<MapTile> {
    if can_connect(neighbor, dir.opposite()) {
        domain
    } else {
        domain.filter(not_connecting(dir))
    }
}

impl MapTile {
    /// The sides on which this tile is open.
    pub open spec fn spec_connections(self) -> Seq<Direction> {
        match self {
            MapTile::NPipe => seq![Direction::North, Direction::South],
            MapTile::EPipe => seq![Direction::West, Direction::East],
            MapTile::NElbow => seq![Direction::North, Direction::West],
            MapTile::EElbow => seq![Direction::East, Direction::North],
            MapTile::SElbow => seq![Direction::South, Direction::East],
            MapTile::WElbow => seq![Direction::West, Direction::South],
            MapTile::NEnd => seq![Direction::North],
            MapTile::EEnd => seq![Direction::East],
            MapTile::SEnd => seq![Direction::South],
            MapTile::WEnd => seq![Direction::West],
            MapTile::NTee => seq![Direction::North, Direction::West, Direction::South],
            MapTile::ETee => seq![Direction::East, Direction::North, Direction::West],
            MapTile::STee => seq![Direction::South, Direction::East, Direction::North],
            MapTile::WTee => seq![Direction::West, Direction::South, Direction::East],
            MapTile::Empty => seq![],
            MapTile::Cross => seq![
                Direction::West,
                Direction::North,
                Direction::East,
                Direction::South,
            ],
        }
    }

    /// Whether this tile is open towards `dir`.
    pub open spec fn connects(self, dir: Direction) -> bool {
        self.spec_connections().contains(dir)
    }

    /// Whether this tile has exactly one opening.
    pub open spec fn is_dead_end(self) -> bool {
        self == MapTile::NEnd || self == MapTile::EEnd || self == MapTile::SEnd || self
            == MapTile::WEnd
    }

    /// All sixteen tiles, in the order in which `all` lists them.
    pub open spec fn spec_all() -> Seq<MapTile> {
        seq![
            MapTile::NPipe,
            MapTile::EPipe,
            MapTile::NElbow,
            MapTile::EElbow,
            MapTile::SElbow,
            MapTile::WElbow,
            MapTile::NEnd,
            MapTile::EEnd,
            MapTile::SEnd,
            MapTile::WEnd,
            MapTile::NTee,
            MapTile::ETee,
            MapTile::STee,
            MapTile::WTee,
            MapTile::Empty,
            MapTile::Cross,
        ]
    }

    /// Every tile but the dead ends, in the order in which `no_end` lists
    /// them.
    pub open spec fn spec_no_end() -> Seq<MapTile> {
        seq![
            MapTile::NPipe,
            MapTile::EPipe,
            MapTile::NElbow,
            MapTile::EElbow,
            MapTile::SElbow,
            MapTile::WElbow,
            MapTile::NTee,
            MapTile::ETee,
            MapTile::STee,
            MapTile::WTee,
            MapTile::Cross,
            MapTile::Empty,
        ]
    }

    /// All sixteen tiles.
    pub fn all() -> (tiles: Vec<MapTile>)
        ensures
            tiles@ == MapTile::spec_all(),
            tiles@.no_duplicates(),
            forall|tile: MapTile| tiles@.contains(tile),
    {
        let tiles = vec![
            MapTile::NPipe,
            MapTile::EPipe,
            MapTile::NElbow,
            MapTile::EElbow,
            MapTile::SElbow,
            MapTile::WElbow,
            MapTile::NEnd,
            MapTile::EEnd,
            MapTile::SEnd,
            MapTile::WEnd,
            MapTile::NTee,
            MapTile::ETee,
            MapTile::STee,
            MapTile::WTee,
            MapTile::Empty,
            MapTile::Cross,
        ];
        proof {
            assert forall|tile: MapTile| tiles@.contains(tile) by {
                let at: int = match tile {
                    MapTile::NPipe => 0,
                    MapTile::EPipe => 1,
                    MapTile::NElbow => 2,
                    MapTile::EElbow => 3,
                    MapTile::SElbow => 4,
                    MapTile::WElbow => 5,
                    MapTile::NEnd => 6,
                    MapTile::EEnd => 7,
                    MapTile::SEnd => 8,
                    MapTile::WEnd => 9,
                    MapTile::NTee => 10,
                    MapTile::ETee => 11,
                    MapTile::STee => 12,
                    MapTile::WTee => 13,
                    MapTile::Empty => 14,
                    MapTile::Cross => 15,
                };
                assert(tiles@[at] == tile);
            }
        }
        tiles
    }

    /// Every tile but the four dead ends, which make for unsightly stubs.
    pub fn no_end() -> (tiles: Vec<MapTile>)
        ensures
            tiles@ == MapTile::spec_no_end(),
            tiles@.no_duplicates(),
            forall|tile: MapTile| tiles@.contains(tile) <==> !tile.is_dead_end(),
    {
        let tiles = vec![
            MapTile::NPipe,
            MapTile::EPipe,
            MapTile::NElbow,
            MapTile::EElbow,
            MapTile::SElbow,
            MapTile::WElbow,
            MapTile::NTee,
            MapTile::ETee,
            MapTile::STee,
            MapTile::WTee,
            MapTile::Cross,
            MapTile::Empty,
        ];
        proof {
            assert forall|tile: MapTile| !tile.is_dead_end() implies tiles@.contains(tile) by {
                let at: int = match tile {
                    MapTile::NPipe => 0,
                    MapTile::EPipe => 1,
                    MapTile::NElbow => 2,
                    MapTile::EElbow => 3,
                    MapTile::SElbow => 4,
                    MapTile::WElbow => 5,
                    MapTile::NTee => 6,
                    MapTile::ETee => 7,
                    MapTile::STee => 8,
                    MapTile::WTee => 9,
                    MapTile::Cross => 10,
                    _ => 11,
                };
                assert(tiles@[at] == tile);
            }
        }
        tiles
    }

    /// Whether this tile is open towards `dir`.
    pub fn conns_to(&self, dir: Direction) -> (open: bool)
        ensures
            open == self.connects(dir),
    {
        let sides = MapTile::tile_connections(self);
        let mut i: usize = 0;
        while i < sides.len()
            invariant
                i <= sides@.len(),
                sides@ == self.spec_connections(),
                forall|j: int| 0 <= j < i ==> sides@[j] != dir,
            decreases sides@.len() - i,
        {
            if sides[i] == dir {
                return true;
            }
            i += 1;
        }
        false
    }

    /// The sides on which `tile` is open. Defined for every tile.
    pub fn tile_connections(tile: &MapTile) -> (sides: &'static [Direction])
        ensures
            sides@ == tile.spec_connections(),
            sides@.len() <= 4,
            sides@.no_duplicates(),
    {
        match *tile {
            MapTile::NPipe => &[Direction::North, Direction::South],
            MapTile::EPipe => &[Direction::West, Direction::East],
            MapTile::NElbow => &[Direction::North, Direction::West],
            MapTile::EElbow => &[Direction::East, Direction::North],
            MapTile::SElbow => &[Direction::South, Direction::East],
            MapTile::WElbow => &[Direction::West, Direction::South],
            MapTile::NEnd => &[Direction::North],
            MapTile::EEnd => &[Direction::East],
            MapTile::SEnd => &[Direction::South],
            MapTile::WEnd => &[Direction::West],
            MapTile::NTee => &[Direction::North, Direction::West, Direction::South],
            MapTile::ETee => &[Direction::East, Direction::North, Direction::West],
            MapTile::STee => &[Direction::South, Direction::East, Direction::North],
            MapTile::WTee => &[Direction::West, Direction::South, Direction::East],
            MapTile::Empty => &[],
            MapTile::Cross => &[
                Direction::West,
                Direction::North,
                Direction::East,
                Direction::South,
            ],
        }
    }

    /// Whether any tile the cell may still take is open towards `dir`.
    pub fn can_connect_to(tile: &SPCell<MapTile>, dir: Direction) -> (open: bool)
        ensures
            open == can_connect(tile.positions@, dir),
    {
        let mut i: usize = 0;
        while i < tile.positions.len()
            invariant
                i <= tile.positions@.len(),
                forall|j: int| 0 <= j < i ==> !(#[trigger] tile.positions@[j]).connects(dir),
            decreases tile.positions@.len() - i,
        {
            if tile.positions[i].conns_to(dir) {
                return true;
            }
            i += 1;
        }
        false
    }

    /// Drops the tiles that are open towards `dir`: for a side with no
    /// neighbour, or one that cannot open back.
    pub fn remove_positions_conn_to(dir: Direction, positions: Vec<MapTile>) -> (kept: Vec<MapTile>)
        ensures
            kept@ == positions@.filter(not_connecting(dir)),
    {
        let mut kept: Vec<MapTile> = Vec::new();
        let mut i: usize = 0;
        while i < positions.len()
            invariant
                i <= positions@.len(),
                kept@ == positions@.take(i as int).filter(not_connecting(dir)),
            decreases positions@.len() - i,
        {
            proof {
                let seen = positions@.take(i as int);
                assert(positions@.take(i + 1) =~= seen.push(positions@[i as int]));
                seen.lemma_filter_push(positions@[i as int], not_connecting(dir));
            }
            if !positions[i].conns_to(dir) {
                kept.push(positions[i]);
            }
            i += 1;
        }
        assert(positions@.take(i as int) =~= positions@);
        kept
    }

    /// Keeps only the tiles that are open towards `dir`: for a side whose
    /// neighbour is known to open onto this cell.
    pub fn remove_not_connecting(dir: Direction, positions: Vec<MapTile>) -> (kept: Vec<MapTile>)
        ensures
            kept@ == positions@.filter(connecting(dir)),
    {
        let mut kept: Vec<MapTile> = Vec::new();
        let mut i: usize = 0;
        while i < positions.len()
            invariant
                i <= positions@.len(),
                kept@ == positions@.take(i as int).filter(connecting(dir)),
            decreases positions@.len() - i,
        {
            proof {
                let seen = positions@.take(i as int);
                assert(positions@.take(i + 1) =~= seen.push(positions@[i as int]));
                seen.lemma_filter_push(positions@[i as int], connecting(dir));
            }
            if positions[i].conns_to(dir) {
                kept.push(positions[i]);
            }
            i += 1;
        }
        assert(positions@.take(i as int) =~= positions@);
        kept
    }

    /// Drops `Empty`.
    pub fn remove_empty(positions: Vec<MapTile>) -> (kept: Vec<MapTile>)
        ensures
            kept@ == positions@.filter(not_empty()),
    {
        let mut kept: Vec<MapTile> = Vec::new();
        let mut i: usize = 0;
        while i < positions.len()
            invariant
                i <= positions@.len(),
                kept@ == positions@.take(i as int).filter(not_empty()),
            decreases positions@.len() - i,
        {
            proof {
                let seen = positions@.take(i as int);
                assert(positions@.take(i + 1) =~= seen.push(positions@[i as int]));
                seen.lemma_filter_push(positions@[i as int], not_empty());
            }
            if positions[i] != MapTile::Empty {
                kept.push(positions[i]);
            }
            i += 1;
        }
        assert(positions@.take(i as int) =~= positions@);
        kept
    }

    /// Narrows `positions` beside the neighbour in direction `neighbor_dir`.
    /// The neighbour has not collapsed yet, so this asks only whether it
    /// could still open back, not what it will be.
    pub fn filter_for_neighbor(
        neighbor_dir: Direction,
        positions: Vec<MapTile>,
        neighbor: &SPCell<MapTile>,
    ) -> (kept: Vec<MapTile>)
        ensures
            kept@ == filtered_for_neighbor(neighbor_dir, positions@, neighbor.positions@),
    {
        if !MapTile::can_connect_to(neighbor, neighbor_dir.opposite()) {
            MapTile::remove_positions_conn_to(neighbor_dir, positions)
        } else {
            positions
        }
    }
}

/// Every tile has between zero and four openings, each listed once: the
/// cross has all four, the empty tile none, a straight pipe two opposite
/// ones, an elbow two adjacent ones, a dead end one and a tee three.
pub proof fn lemma_connections_total(tile: MapTile)
    ensures
        tile.spec_connections().len() <= 4,
        tile.spec_connections().no_duplicates(),
        tile == MapTile::Cross ==> forall|dir: Direction| tile.connects(dir),
        tile == MapTile::Empty ==> forall|dir: Direction| !tile.connects(dir),
        tile == MapTile::Cross <==> tile.spec_connections().len() == 4,
        tile == MapTile::Empty <==> tile.spec_connections().len() == 0,
        tile.is_dead_end() <==> tile.spec_connections().len() == 1,
        tile == MapTile::NTee || tile == MapTile::ETee || tile == MapTile::STee || tile
            == MapTile::WTee <==> tile.spec_connections().len() == 3,
        tile == MapTile::NPipe || tile == MapTile::EPipe ==> tile.spec_connections().len() == 2
            && tile.spec_connections()[1] == tile.spec_connections()[0].opposite(),
{
    if tile == MapTile::Cross {
        assert forall|dir: Direction| tile.connects(dir) by {
            let at: int = match dir {
                Direction::West => 0,
                Direction::North => 1,
                Direction::East => 2,
                Direction::South => 3,
            };
            assert(tile.spec_connections()[at] == dir);
        }
    }
}

} // verus!
