//! A tile map: one bit per tile in row-major packed bytes, a wall sprite
//! and a background sprite, collision lookup in level pixel coordinates,
//! and drawing the visible tiles into a screen buffer.

use crate::raster::{draw_sprite, spec_blit, Sprite};
use vstd::arithmetic::div_mod::{
    lemma_fundamental_div_mod, lemma_fundamental_div_mod_converse_div,
    lemma_fundamental_div_mod_converse_mod, lemma_mod_division_less_than_divisor,
};
use vstd::prelude::*;

verus! {

/// The type of the tile at `(tile_x, tile_y)`: the tile's bit masked out
/// of the packed map, most significant bit first; zero for coordinates
/// outside the map.
pub open spec fn spec_tile_type(
    tiles: Seq<u8>,
    level_width: u32,
    level_height: u32,
    tile_x: u32,
    tile_y: u32,
) -> u8 {
    if tile_x >= level_width || tile_y >= level_height {
        0u8
    } else {
        let orig: int = tile_y * level_width + tile_x;
        tiles[orig / 8] & (1u8 << ((7 - orig % 8) as u8))
    }
}

/// Reads one tile's bit out of the packed row-major map, returning zero
/// for coordinates outside the map.
pub fn get_tile_type(
    level_bytes: &[u8],
    level_width: u32,
    level_height: u32,
    tile_x: u32,
    tile_y: u32,
) -> (r: u8)
    requires
        level_width * level_height <= u32::MAX,
        level_width * level_height <= 8 * level_bytes@.len(),
    ensures
        r == spec_tile_type(level_bytes@, level_width, level_height, tile_x, tile_y),
{
    if tile_x >= level_width {
        return 0;
    }
    if tile_y >= level_height {
        return 0;
    }
    proof {
        assert(tile_y * level_width + tile_x < level_width * level_height) by (nonlinear_arith)
            requires
                tile_x < level_width,
                tile_y < level_height,
        ;
        lemma_fundamental_div_mod((tile_y * level_width + tile_x) as int, 8);
        lemma_mod_division_less_than_divisor((tile_y * level_width + tile_x) as int, 8);
    }
    let orig_ind: u32 = tile_y * level_width + tile_x;
    let ind: usize = (orig_ind / 8) as usize;
    let offset: u32 = 7 - (orig_ind % 8);
    let mask: u8 = 1u8 << (offset as u8);
    level_bytes[ind] & mask
}

/// The tile type under a point given in level pixel coordinates, using the
/// tile rectangle size to find the tile; zero for negative coordinates.
pub open spec fn spec_tile_type_level_coords(
    tiles: Seq<u8>,
    level_width: u32,
    level_height: u32,
    tile_width: usize,
    tile_height: usize,
    x: i32,
    y: i32,
) -> u8
    recommends
        tile_width >= 1,
        tile_height >= 1,
{
    if x < 0 || y < 0 {
        0u8
    } else {
        spec_tile_type(
            tiles,
            level_width,
            level_height,
            ((x as int) / (tile_width as int)) as u32,
            ((y as int) / (tile_height as int)) as u32,
        )
    }
}

/// Looks a point in level pixel coordinates up in the packed tile map.
pub fn get_tile_type_level_coords(
    level_bytes: &[u8],
    level_width: u32,
    level_height: u32,
    tile_width: usize,
    tile_height: usize,
    x: i32,
    y: i32,
) -> (r: u8)
    requires
        1 <= tile_width <= u32::MAX,
        1 <= tile_height <= u32::MAX,
        level_width * level_height <= u32::MAX,
        level_width * level_height <= 8 * level_bytes@.len(),
    ensures
        r == spec_tile_type_level_coords(
            level_bytes@,
            level_width,
            level_height,
            tile_width,
            tile_height,
            x,
            y,
        ),
{
    if x < 0 {
        return 0;
    }
    if y < 0 {
        return 0;
    }
    let tile_x: u32 = x as u32 / tile_width as u32;
    let tile_y: u32 = y as u32 / tile_height as u32;
    get_tile_type(level_bytes, level_width, level_height, tile_x, tile_y)
}

/// A tile level: map dimensions in tiles, the packed one-bit-per-tile map,
/// and the two tile sprites.
#[derive(Debug)]
pub struct Level {
    pub width: u32,
    pub height: u32,
    pub tiles: Vec<u8>,
    pub wall_fg: Sprite,
    pub background: Sprite,
}

impl Level {
    /// The invariant: every tile has its bit in the packed map, the tile
    /// sprites are well-formed and at least one pixel wide and tall, and
    /// the map's pixel extent fits 32-bit signed arithmetic.
    pub open spec fn wf(self) -> bool {
        &&& self.width * self.height <= u32::MAX
        &&& self.width * self.height <= 8 * self.tiles@.len()
        &&& self.wall_fg.wf()
        &&& self.background.wf()
        &&& self.wall_fg.width >= 1
        &&& self.wall_fg.height >= 1
        &&& self.width * self.wall_fg.width <= 0x7fff_ffff
        &&& self.height * self.wall_fg.height <= 0x7fff_ffff
    }

    /// The width of one tile in pixels: the wall sprite's width.
    pub fn tile_width(&self) -> (r: usize)
        ensures
            r == self.wall_fg.width,
    {
        self.wall_fg.width
    }

    /// The height of one tile in pixels: the wall sprite's height.
    pub fn tile_height(&self) -> (r: usize)
        ensures
            r == self.wall_fg.height,
    {
        self.wall_fg.height
    }

    /// Whether the point `(test_x, test_y)`, in level pixel coordinates,
    /// lies on a wall tile.
    pub fn is_collided(&self, test_x: i32, test_y: i32) -> (r: bool)
        requires
            self.wf(),
        ensures
            r == (spec_tile_type_level_coords(
                self.tiles@,
                self.width,
                self.height,
                self.wall_fg.width,
                self.wall_fg.height,
                test_x,
                test_y,
            ) > 0),
    {
        let tile_type = get_tile_type_level_coords(
            self.tiles.as_slice(),
            self.width,
            self.height,
            self.wall_fg.width,
            self.wall_fg.height,
            test_x,
            test_y,
        );
        tile_type > 0
    }

    /// Per-frame update of the level. The level holds no animated state,
    /// so this leaves it unchanged.
    pub fn update(&mut self)
        ensures
            *final(self) == *old(self),
    {
    }
}

/// The screen after drawing the first `n` tiles (in row-major order) of
/// the level, camera-shifted, each tile blitting its wall or background
/// sprite clipped to the screen; tiles whose rectangle lies outside the
/// camera view are skipped.
pub open spec fn spec_draw_tiles(
    lv: Level,
    camera_x: int,
    camera_y: int,
    dst0: Seq<u32>,
    dst_w: int,
    dst_h: int,
    n: int,
) -> Seq<u32>
    decreases n,
{
    if n <= 0 {
        dst0
    } else {
        let prev = spec_draw_tiles(lv, camera_x, camera_y, dst0, dst_w, dst_h, n - 1);
        let t: int = n - 1;
        let tile_x: int = t % (lv.width as int);
        let tile_y: int = t / (lv.width as int);
        let screen_x: int = tile_x * lv.wall_fg.width - camera_x;
        let screen_y: int = tile_y * lv.wall_fg.height - camera_y;
        if screen_x < -(lv.wall_fg.width as int) || screen_x > dst_w || screen_y < -(
        lv.wall_fg.height as int) || screen_y > dst_h {
            prev
        } else {
            let spr = if spec_tile_type(
                lv.tiles@,
                lv.width,
                lv.height,
                tile_x as u32,
                tile_y as u32,
            ) > 0 {
                lv.wall_fg
            } else {
                lv.background
            };
            spec_blit(spr.argb@, spr.width as int, spr.height as int, screen_x, screen_y, prev, dst_w)
        }
    }
}

impl Level {
    /// Draws every tile of the level onto the screen, shifted by the
    /// camera and clipped to the screen rectangle.
    #[verifier::loop_isolation(false)]
    pub fn draw(&self, camera_x: i32, camera_y: i32, screen: &mut Sprite)
        requires
            self.wf(),
            old(screen).wf(),
            self.width * self.wall_fg.width - camera_x + self.wall_fg.width <= i32::MAX,
            self.width * self.wall_fg.width - camera_x + self.background.width <= i32::MAX,
            self.height * self.wall_fg.height - camera_y + self.wall_fg.height <= i32::MAX,
            self.height * self.wall_fg.height - camera_y + self.background.height <= i32::MAX,
        ensures
            final(screen).wf(),
            final(screen).width == old(screen).width,
            final(screen).height == old(screen).height,
            final(screen).argb@ == spec_draw_tiles(
                *self,
                camera_x as int,
                camera_y as int,
                old(screen).argb@,
                old(screen).width as int,
                old(screen).height as int,
                self.width * self.height,
            ),
    {
        let ghost dst0 = screen.argb@;
        let ghost dw = old(screen).width as int;
        let ghost dh = old(screen).height as int;
        let mut tile_y: u32 = 0;
        while tile_y < self.height
            invariant
                tile_y <= self.height,
                screen.wf(),
                screen.width == old(screen).width,
                screen.height == old(screen).height,
                screen.argb@ == spec_draw_tiles(
                    *self,
                    camera_x as int,
                    camera_y as int,
                    dst0,
                    dw,
                    dh,
                    tile_y * self.width,
                ),
            decreases self.height - tile_y,
        {
            let mut tile_x: u32 = 0;
            while tile_x < self.width
                invariant
                    tile_x <= self.width,
                    tile_y < self.height,
                    screen.wf(),
                    screen.width == old(screen).width,
                    screen.height == old(screen).height,
                    screen.argb@ == spec_draw_tiles(
                        *self,
                        camera_x as int,
                        camera_y as int,
                        dst0,
                        dw,
                        dh,
                        tile_y * self.width + tile_x,
                    ),
                decreases self.width - tile_x,
            {
                let ghost t: int = tile_y * self.width + tile_x;
                proof {
                    assert(tile_x * self.wall_fg.width <= self.width * self.wall_fg.width
                        && tile_y * self.wall_fg.height <= self.height * self.wall_fg.height
                        && 0 <= tile_x * self.wall_fg.width && 0 <= tile_y * self.wall_fg.height
                        && self.width <= self.width * self.wall_fg.width && self.height
                        <= self.height * self.wall_fg.height) by (nonlinear_arith)
                        requires
                            0 <= tile_x <= self.width,
                            0 <= tile_y <= self.height,
                            self.wall_fg.width >= 1,
                            self.wall_fg.height >= 1,
                    ;
                    lemma_fundamental_div_mod_converse_div(
                        t as int,
                        self.width as int,
                        tile_y as int,
                        tile_x as int,
                    );
                    lemma_fundamental_div_mod_converse_mod(
                        t as int,
                        self.width as int,
                        tile_y as int,
                        tile_x as int,
                    );
                }
                let screen_x: i32 = tile_x as i32 * self.wall_fg.width as i32 - camera_x;
                if screen_x < -(self.wall_fg.width as i32) || screen_x > screen.width as i32 {
                    proof {
                        assert(screen.argb@ == spec_draw_tiles(
                            *self,
                            camera_x as int,
                            camera_y as int,
                            dst0,
                            dw,
                            dh,
                            t + 1,
                        ));
                    }
                } else {
                    let screen_y: i32 = tile_y as i32 * self.wall_fg.height as i32 - camera_y;
                    if screen_y < -(self.wall_fg.height as i32) || screen_y > screen.height as i32 {
                        proof {
                            assert(screen.argb@ == spec_draw_tiles(
                                *self,
                                camera_x as int,
                                camera_y as int,
                                dst0,
                                dw,
                                dh,
                                t + 1,
                            ));
                        }
                    } else {
                        let tile_type: u8 = get_tile_type(
                            self.tiles.as_slice(),
                            self.width,
                            self.height,
                            tile_x,
                            tile_y,
                        );
                        if tile_type > 0 {
                            draw_sprite(&self.wall_fg, screen_x, screen_y, screen);
                        } else {
                            draw_sprite(&self.background, screen_x, screen_y, screen);
                        }
                        proof {
                            assert(screen.argb@ == spec_draw_tiles(
                                *self,
                                camera_x as int,
                                camera_y as int,
                                dst0,
                                dw,
                                dh,
                                t + 1,
                            ));
                        }
                    }
                }
                tile_x = tile_x + 1;
            }
            proof {
                assert((tile_y + 1) * self.width == tile_y * self.width + self.width)
                    by (nonlinear_arith);
            }
            tile_y = tile_y + 1;
        }
        proof {
            assert(self.height * self.width == self.width * self.height) by (nonlinear_arith);
        }
    }
}

} // verus!
