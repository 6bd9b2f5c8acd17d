use net_common::level::{get_tile_type, get_tile_type_level_coords, Level};
use net_common::raster::{big_pixel, draw_pixel, draw_sprite, small_pixel, Sprite};

fn solid(width: usize, height: usize, color: u32) -> Sprite {
    Sprite { width, height, argb: vec![color; width * height] }
}

#[test]
fn rgba_pixels_merge_into_argb() {
    let rgba: Vec<u8> = vec![1, 2, 3, 4, 5, 6, 7, 8];
    let s = Sprite::from_rgba(2, 1, &rgba);
    assert_eq!(s.argb, vec![0x04010203, 0x08050607]);
}

#[test]
fn draw_pixel_writes_in_range_only() {
    let mut s = solid(2, 2, 0);
    draw_pixel(&mut s, 1, 0, 0xAA);
    assert_eq!(s.argb, vec![0, 0xAA, 0, 0]);
    draw_pixel(&mut s, -1, 0, 0xBB);
    draw_pixel(&mut s, 0, 2, 0xBB);
    draw_pixel(&mut s, 2, 0, 0xBB);
    assert_eq!(s.argb, vec![0, 0xAA, 0, 0]);
}

#[test]
fn draw_sprite_copies_opaque_pixels() {
    let src = solid(1, 1, 0xFF123456);
    let mut screen = solid(2, 2, 0);
    draw_sprite(&src, 1, 1, &mut screen);
    assert_eq!(screen.argb, vec![0, 0, 0, 0xFF123456]);
}

#[test]
fn draw_sprite_skips_transparent_pixels() {
    let src = solid(1, 1, 0x00123456);
    let mut screen = solid(2, 2, 0x77);
    draw_sprite(&src, 0, 0, &mut screen);
    assert_eq!(screen.argb, vec![0x77; 4]);
}

#[test]
fn draw_sprite_clips_to_screen() {
    let src = solid(2, 2, 0xFF0000AA);
    let mut screen = solid(2, 2, 0);
    draw_sprite(&src, 1, 1, &mut screen);
    assert_eq!(screen.argb, vec![0, 0, 0, 0xFF0000AA]);
    let mut screen2 = solid(2, 2, 0);
    draw_sprite(&src, -1, -1, &mut screen2);
    assert_eq!(screen2.argb, vec![0xFF0000AA, 0, 0, 0]);
}

#[test]
fn small_pixel_writes_cell_corner() {
    let mut buffer: Vec<u32> = vec![0; 16];
    small_pixel(&mut buffer, 2, 2, 1, 1, 0xCC);
    let mut expected: Vec<u32> = vec![0; 16];
    expected[10] = 0xCC;
    assert_eq!(buffer, expected);
}

#[test]
fn big_pixel_fills_whole_cell() {
    let mut buffer: Vec<u32> = vec![0; 16];
    big_pixel(&mut buffer, 2, 2, 1, 1, 0xDD);
    let mut expected: Vec<u32> = vec![0; 16];
    for i in [10, 11, 14, 15] {
        expected[i] = 0xDD;
    }
    assert_eq!(buffer, expected);
}

#[test]
fn tile_bits_are_read_msb_first() {
    let tiles = [0b1010_0000u8];
    assert_eq!(get_tile_type(&tiles, 4, 2, 0, 0), 0x80);
    assert_eq!(get_tile_type(&tiles, 4, 2, 1, 0), 0);
    assert_eq!(get_tile_type(&tiles, 4, 2, 2, 0), 0x20);
    assert_eq!(get_tile_type(&tiles, 4, 2, 4, 0), 0);
    assert_eq!(get_tile_type(&tiles, 4, 2, 0, 2), 0);
}

#[test]
fn level_coords_divide_by_tile_size() {
    let tiles = [0b1010_0000u8];
    assert_eq!(get_tile_type_level_coords(&tiles, 4, 2, 8, 8, 17, 0), 0x20);
    assert_eq!(get_tile_type_level_coords(&tiles, 4, 2, 8, 8, -1, 0), 0);
    assert_eq!(get_tile_type_level_coords(&tiles, 4, 2, 8, 8, 0, -1), 0);
}

fn tiny_level(tiles: Vec<u8>) -> Level {
    Level {
        width: 1,
        height: 1,
        tiles,
        wall_fg: solid(2, 2, 0xFF0000FF),
        background: solid(2, 2, 0xFF00FF00),
    }
}

#[test]
fn collision_follows_the_wall_bit() {
    let lv = tiny_level(vec![0x80]);
    assert!(lv.is_collided(0, 0));
    assert!(lv.is_collided(1, 1));
    assert!(!lv.is_collided(2, 0));
    assert!(!lv.is_collided(-1, 0));
    let empty = tiny_level(vec![0x00]);
    assert!(!empty.is_collided(0, 0));
}

#[test]
fn level_draw_picks_wall_or_background() {
    let wall = tiny_level(vec![0x80]);
    let mut screen = solid(2, 2, 0);
    wall.draw(0, 0, &mut screen);
    assert_eq!(screen.argb, vec![0xFF0000FF; 4]);

    let empty = tiny_level(vec![0x00]);
    let mut screen2 = solid(2, 2, 0);
    empty.draw(0, 0, &mut screen2);
    assert_eq!(screen2.argb, vec![0xFF00FF00; 4]);
}

#[test]
fn level_draw_respects_camera() {
    let wall = tiny_level(vec![0x80]);
    let mut screen = solid(2, 2, 0x11);
    wall.draw(1, 0, &mut screen);
    // The single 2x2 wall tile is shifted one pixel left: only its right
    // column remains off-screen-left, so columns 0 hold the tile's x=1
    // pixels and column 1 keeps the old screen color.
    assert_eq!(screen.argb, vec![0xFF0000FF, 0x11, 0xFF0000FF, 0x11]);

    let mut far = solid(2, 2, 0x22);
    wall.draw(100, 0, &mut far);
    assert_eq!(far.argb, vec![0x22; 4]);
}

#[test]
fn level_update_is_a_no_op() {
    let mut lv = tiny_level(vec![0x80]);
    lv.update();
    assert_eq!(lv.width, 1);
    assert_eq!(lv.tiles, vec![0x80]);
}
