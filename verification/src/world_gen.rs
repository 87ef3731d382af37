use rand::Rng;
use vstd::prelude::*;
use crate::map::tile::MapTile;
use crate::procedural::direction::Direction;

verus! {

/// The player has left the room through the exit on one side.
#[derive(Clone, Copy, Debug, PartialEq, Eq, Structural)]
pub struct ExitEvent(pub Direction);

/// The world: a map of rooms, indexed `[y][x]`, and the room the player is
/// in.
pub struct MapDesc {
    x: usize,
    y: usize,
    map: Vec<Vec<MapTile>>,
}

/// The map that the game ships with.
pub open spec fn built_in_map() -> Seq<Seq<MapTile>> {
    seq![
        seq![MapTile::EElbow, MapTile::EPipe, MapTile::WTee, MapTile::NElbow, MapTile::NEnd],
        seq![MapTile::SElbow, MapTile::ETee, MapTile::Cross, MapTile::Cross, MapTile::WElbow],
        seq![MapTile::EEnd, MapTile::NTee, MapTile::NPipe, MapTile::SElbow, MapTile::NElbow],
        seq![MapTile::EElbow, MapTile::Cross, MapTile::WTee, MapTile::ETee, MapTile::NTee],
        seq![MapTile::SElbow, MapTile::WElbow, MapTile::Empty, MapTile::SEnd, MapTile::SEnd],
    ]
}

/// Which tile of the tile set a pixel of a room's picture stands for: the
/// three shades of floor are tile 0, every other colour is wall, tile 1.
pub open spec fn tile_of_color(r: u8, g: u8, b: u8) -> usize {
    if (r == 11 && g == 61 && b == 38) || (r == 16 && g == 121 && b == 15) || (r == 76 && g == 90
        && b == 84) {
        0
    } else {
        1
    }
}

/// The tile that the pixel in column `x` of row `y` stands for, in a
/// picture `width` pixels wide whose pixels are four bytes each: red,
/// green, blue and a fourth that does not count. The picture of the room
/// the game starts in has colours of its own.
pub open spec fn tile_of_pixel(
    data: Seq<u8>,
    width: int,
    x: int,
    y: int,
    first_room: bool,
) -> usize {
    let at = 4 * (x + y * width);
    if first_room {
        crate::cross_room::tile_of_color(data[at], data[at + 1], data[at + 2])
    } else {
        tile_of_color(data[at], data[at + 1], data[at + 2])
    }
}

/// A number from `low` up to but not including `high`, by `Rng::gen_range`
/// on `rand::thread_rng()`. Which number is left open.
#[verifier::external_body]
fn random_between(low: u32, high: u32) -> (n: u32)
    requires
        low < high,
    ensures
        low <= n < high,
{
    rand::thread_rng().gen_range(low..high)
}

impl MapDesc {
    /// The map of rooms, as sequences.
    pub closed spec fn rooms(&self) -> Seq<Seq<MapTile>> {
        Seq::new(self.map@.len(), |y: int| self.map@[y]@)
    }

    /// The column of the room the player is in.
    pub closed spec fn spec_x(&self) -> usize {
        self.x
    }

    /// The row of the room the player is in.
    pub closed spec fn spec_y(&self) -> usize {
        self.y
    }

    /// Where leaving the room at column `x`, row `y` through the exit on
    /// side `dir` leads, as `(x, y)`: north is the next row up.
    pub open spec fn beyond(x: int, y: int, dir: Direction) -> (int, int) {
        (x + dir.spec_unit().0, y + dir.spec_unit().1)
    }

    /// Whether there is a room at column `x`, row `y`.
    pub open spec fn has_room(&self, x: int, y: int) -> bool {
        0 <= y < self.rooms().len() && 0 <= x < self.rooms()[y].len()
    }

    /// A world of the rooms of `map`, with the player in column `x` of row
    /// `y`.
    pub fn new(x: usize, y: usize, map: Vec<Vec<MapTile>>) -> (world: Self)
        ensures
            world.spec_x() == x,
            world.spec_y() == y,
            world.rooms() == Seq::new(map@.len(), |j: int| map@[j]@),
    {
        MapDesc { x, y, map }
    }

    /// The column of the room the player is in.
    pub fn x(&self) -> (x: usize)
        ensures
            x == self.spec_x(),
    {
        self.x
    }

    /// The row of the room the player is in.
    pub fn y(&self) -> (y: usize)
        ensures
            y == self.spec_y(),
    {
        self.y
    }

    /// The map of rooms, indexed `[y][x]`.
    pub fn map(&self) -> (map: &Vec<Vec<MapTile>>)
        ensures
            Seq::new(map@.len(), |y: int| map@[y]@) == self.rooms(),
    {
        &self.map
    }

    /// The room the player is in, or `None` where the player has walked
    /// off the map.
    pub fn room(&self) -> (room: Option<MapTile>)
        ensures
            self.has_room(self.spec_x() as int, self.spec_y() as int) ==> room == Some(
                self.rooms()[self.spec_y() as int][self.spec_x() as int],
            ),
            !self.has_room(self.spec_x() as int, self.spec_y() as int) ==> room is None,
    {
        if self.y < self.map.len() {
            if self.x < self.map[self.y].len() {
                return Some(self.map[self.y][self.x]);
            }
        }
        None
    }

    /// Moves the player into the room beyond the exit it left through.
    /// Where the map has no room there, the player stays, and `false` comes
    /// back.
    pub fn travel(&mut self, event: &ExitEvent) -> (moved: bool)
        ensures
            final(self).rooms() == old(self).rooms(),
            moved == old(self).has_room(
                MapDesc::beyond(old(self).spec_x() as int, old(self).spec_y() as int, event.0).0,
                MapDesc::beyond(old(self).spec_x() as int, old(self).spec_y() as int, event.0).1,
            ),
            moved ==> (final(self).spec_x() as int, final(self).spec_y() as int) == MapDesc::beyond(
                old(self).spec_x() as int,
                old(self).spec_y() as int,
                event.0,
            ),
            !moved ==> final(self).spec_x() == old(self).spec_x() && final(self).spec_y() == old(
                self,
            ).spec_y(),
    {
        let mut x = self.x;
        let mut y = self.y;
        let rows = self.map.len();
        let columns = if y < rows {
            self.map[y].len()
        } else {
            0
        };
        match event.0 {
            Direction::North => {
                if y == usize::MAX {
                    return false;
                }
                y = y + 1;
            },
            Direction::South => {
                if y == 0 {
                    return false;
                }
                y = y - 1;
            },
            Direction::East => {
                if x == usize::MAX {
                    return false;
                }
                x = x + 1;
            },
            Direction::West => {
                if x == 0 {
                    return false;
                }
                x = x - 1;
            },
        }
        if y < self.map.len() {
            if x < self.map[y].len() {
                self.x = x;
                self.y = y;
                return true;
            }
        }
        false
    }
}

/// The world the game starts in: the built-in map, with the player in the
/// room at column 0 of row 0.
pub fn create_map() -> (world: MapDesc)
    ensures
        world.spec_x() == 0,
        world.spec_y() == 0,
        world.rooms() == built_in_map(),
{
    let map = vec![
        vec![MapTile::EElbow, MapTile::EPipe, MapTile::WTee, MapTile::NElbow, MapTile::NEnd],
        vec![MapTile::SElbow, MapTile::ETee, MapTile::Cross, MapTile::Cross, MapTile::WElbow],
        vec![MapTile::EEnd, MapTile::NTee, MapTile::NPipe, MapTile::SElbow, MapTile::NElbow],
        vec![MapTile::EElbow, MapTile::Cross, MapTile::WTee, MapTile::ETee, MapTile::NTee],
        vec![MapTile::SElbow, MapTile::WElbow, MapTile::Empty, MapTile::SEnd, MapTile::SEnd],
    ];
    let world = MapDesc { x: 0, y: 0, map };
    proof {
        assert(world.rooms()[0] =~= built_in_map()[0]);
        assert(world.rooms()[1] =~= built_in_map()[1]);
        assert(world.rooms()[2] =~= built_in_map()[2]);
        assert(world.rooms()[3] =~= built_in_map()[3]);
        assert(world.rooms()[4] =~= built_in_map()[4]);
        assert(world.rooms() =~= built_in_map());
    }
    world
}

/// Which tile of the tile set a pixel of the colour `(r, g, b)` stands for.
pub fn color_to_tile_index(r: u8, g: u8, b: u8) -> (index: usize)
    ensures
        index == tile_of_color(r, g, b),
        index == 0 || index == 1,
{
    match (r, g, b) {
        (11, 61, 38) | (16, 121, 15) | (76, 90, 84) => 0,
        _ => 1,
    }
}

/// The tiles of a room, read off its picture: `data` holds the picture's
/// pixels row by row, four bytes each, and the tile in column `x` of row
/// `y` comes back at `[y][x]`. `None` where `data` is too short for a
/// picture of `width` by `height` pixels.
pub fn room_tiles(data: &Vec<u8>, width: usize, height: usize) -> (tiles: Option<Vec<Vec<usize>>>)
    ensures
        tiles is Some <==> 4 * width * height <= data@.len(),
        tiles matches Some(rows) ==> {
            &&& rows@.len() == height
            &&& forall|y: int| 0 <= y < height ==> (#[trigger] rows@[y])@.len() == width
            &&& forall|y: int, x: int|
                0 <= y < height && 0 <= x < width ==> (#[trigger] rows@[y]@[x]) == tile_of_pixel(
                    data@,
                    width as int,
                    x,
                    y,
                    false,
                )
        },
{
    read_tiles(data, width, height, false)
}

/// The tiles of a picture, in the colours of the first room or in those of
/// the others.
pub(crate) fn read_tiles(data: &Vec<u8>, width: usize, height: usize, first_room: bool) -> (tiles:
    Option<Vec<Vec<usize>>>)
    ensures
        tiles is Some <==> 4 * width * height <= data@.len(),
        tiles matches Some(rows) ==> {
            &&& rows@.len() == height
            &&& forall|y: int| 0 <= y < height ==> (#[trigger] rows@[y])@.len() == width
            &&& forall|y: int, x: int|
                0 <= y < height && 0 <= x < width ==> (#[trigger] rows@[y]@[x]) == tile_of_pixel(
                    data@,
                    width as int,
                    x,
                    y,
                    first_room,
                )
        },
{
    let bytes = data.len();
    let pixels = match width.checked_mul(height) {
        Some(pixels) => pixels,
        None => {
            assert(4 * width * height > data@.len()) by (nonlinear_arith)
                requires
                    width * height > usize::MAX,
                    data@.len() <= usize::MAX,
            ;
            return None;
        },
    };
    if pixels > bytes / 4 {
        assert(4 * width * height > data@.len()) by (nonlinear_arith)
            requires
                width * height > data@.len() / 4,
        ;
        return None;
    }
    assert(4 * width * height <= data@.len()) by (nonlinear_arith)
        requires
            width * height <= data@.len() / 4,
    ;
    let mut rows: Vec<Vec<usize>> = Vec::new();
    let mut at: usize = 0;
    let mut y: usize = 0;
    while y < height
        invariant
            y <= height,
            4 * width * height <= data@.len(),
            data@.len() <= usize::MAX,
            at == 4 * (y * width),
            rows@.len() == y,
            forall|j: int| 0 <= j < y ==> (#[trigger] rows@[j])@.len() == width,
            forall|j: int, i: int|
                0 <= j < y && 0 <= i < width ==> (#[trigger] rows@[j]@[i]) == tile_of_pixel(
                    data@,
                    width as int,
                    i,
                    j,
                    first_room,
                ),
        decreases height - y,
    {
        let mut row: Vec<usize> = Vec::new();
        let mut x: usize = 0;
        while x < width
            invariant
                y < height,
                x <= width,
                4 * width * height <= data@.len(),
                data@.len() <= usize::MAX,
                at == 4 * (x + y * width),
                row@.len() == x,
                forall|i: int|
                    0 <= i < x ==> (#[trigger] row@[i]) == tile_of_pixel(
                        data@,
                        width as int,
                        i,
                        y as int,
                        first_room,
                    ),
            decreases width - x,
        {
            assert(4 * (x + y * width) + 4 <= 4 * width * height) by (nonlinear_arith)
                requires
                    x < width,
                    y < height,
            ;
            assert(at + 4 <= data@.len());
            let r = data[at];
            let g = data[at + 1];
            let b = data[at + 2];
            if first_room {
                row.push(crate::cross_room::color_to_tile_index(r, g, b));
            } else {
                row.push(color_to_tile_index(r, g, b));
            }
            at = at + 4;
            x += 1;
        }
        assert(4 * (width + y * width) == 4 * ((y + 1) * width)) by (nonlinear_arith);
        rows.push(row);
        y += 1;
    }
    Some(rows)
}

/// How many frogs and how many bats wait in the next room: three to six
/// frogs and three to five bats, chosen at random.
pub fn enemy_counts() -> (counts: (u32, u32))
    ensures
        3 <= counts.0 < 7,
        3 <= counts.1 < 6,
{
    let frogs = random_between(3, 7);
    let bats = random_between(3, 6);
    (frogs, bats)
}

/// Leaving a room and coming back through the opposite exit leads to where
/// one started.
pub proof fn lemma_there_and_back(x: int, y: int, dir: Direction)
    ensures
        MapDesc::beyond(
            MapDesc::beyond(x, y, dir).0,
            MapDesc::beyond(x, y, dir).1,
            dir.opposite(),
        ) == (x, y),
{
}

} // verus!
