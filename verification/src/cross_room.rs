use vstd::prelude::*;
use crate::world_gen::{read_tiles, tile_of_pixel};

verus! {

/// Which tile of the tile set a pixel of the first room's picture stands
/// for: one shade of green is wall, tile 1, every other colour is floor,
/// tile 0.
pub open spec fn tile_of_color(r: u8, g: u8, b: u8) -> usize {
    if r == 0 && g == 154 && b == 83 {
        1
    } else {
        0
    }
}

/// Which tile of the tile set a pixel of the colour `(r, g, b)` stands for
/// in the picture of the first room.
pub fn color_to_tile_index(r: u8, g: u8, b: u8) -> (index: usize)
    ensures
        index == tile_of_color(r, g, b),
        index == 0 || index == 1,
{
    match (r, g, b) {
        (0, 154, 83) => 1,
        _ => 0,
    }
}

/// The tiles of the room the game starts in, read off its picture: `data`
/// holds the picture's pixels row by row, four bytes each, and the tile in
/// column `x` of row `y` comes back at `[y][x]`. `None` where `data` is too
/// short for a picture of `width` by `height` pixels.
pub fn cross_room_tiles(data: &Vec<u8>, width: usize, height: usize) -> (tiles: Option<
    Vec<Vec<usize>>,
>)
    ensures
        tiles is Some <==> 4 * width * height <= data@.len(),
        tiles matches Some(rows) ==> {
            &&& rows@.len() == height
            &&& forall|y: int| 0 <= y < height ==> (#[trigger] rows@[y])@.len() == width
            &&& forall|y: int, x: int|
                0 <= y < height && 0 <= x < width ==> (#[trigger] rows@[y]@[x]) == tile_of_pixel(
                    data@,
                    width as int,
                    x,
                    y,
                    true,
                )
        },
{
    read_tiles(data, width, height, true)
}

} // verus!
