//! Software rasterization on plain pixel buffers: ARGB sprites, single
//! pixels, scaled map cells, and alpha-masked sprite blitting.

use vstd::arithmetic::div_mod::{
    lemma_div_pos_is_pos, lemma_fundamental_div_mod, lemma_fundamental_div_mod_converse_div,
    lemma_fundamental_div_mod_converse_mod, lemma_mod_division_less_than_divisor,
};
use vstd::arithmetic::mul::lemma_mul_inequality;
use vstd::prelude::*;

verus! {

/// A rectangular ARGB pixel buffer in row-major order.
#[derive(Debug)]
pub struct Sprite {
    pub width: usize,
    pub height: usize,
    pub argb: Vec<u32>,
}

impl Sprite {
    /// The invariant: the buffer holds exactly `width * height` pixels and
    /// the rectangle is small enough for 32-bit signed index arithmetic.
    pub open spec fn wf(self) -> bool {
        &&& self.argb@.len() == self.width * self.height
        &&& self.width <= 0x7fff_ffff
        &&& self.height <= 0x7fff_ffff
        &&& self.width * self.height <= 0x7fff_ffff
    }
}

/// One ARGB pixel merged from the `i`-th RGBA quadruple of a decoded image.
pub open spec fn spec_argb_pixel(rgba: Seq<u8>, i: int) -> u32
    recommends
        0 <= i,
        4 * i + 4 <= rgba.len(),
{
    ((rgba[4 * i + 3] as u32) << 24) | ((rgba[4 * i] as u32) << 16) | ((rgba[4 * i + 1] as u32)
        << 8) | (rgba[4 * i + 2] as u32)
}

impl Sprite {
    /// Builds a sprite from a decoded RGBA byte buffer, merging each
    /// quadruple of subpixels into one ARGB pixel.
    pub fn from_rgba(width: usize, height: usize, rgba: &[u8]) -> (s: Sprite)
        requires
            width <= 0x7fff_ffff,
            height <= 0x7fff_ffff,
            width * height <= 0x7fff_ffff,
            rgba@.len() == 4 * (width * height),
        ensures
            s.wf(),
            s.width == width,
            s.height == height,
            forall|i: int|
                0 <= i < width * height ==> s.argb@[i] == spec_argb_pixel(rgba@, i),
    {
        let n: usize = width * height;
        let total_bytes: usize = rgba.len();
        let mut argb: Vec<u32> = Vec::new();
        let mut i: usize = 0;
        while i < n
            invariant
                n == width * height,
                total_bytes == 4 * n,
                rgba@.len() == 4 * n,
                i <= n,
                argb@.len() == i,
                forall|j: int| 0 <= j < i ==> argb@[j] == spec_argb_pixel(rgba@, j),
            decreases n - i,
        {
            let r: u32 = rgba[4 * i] as u32;
            let g: u32 = rgba[4 * i + 1] as u32;
            let b: u32 = rgba[4 * i + 2] as u32;
            let a: u32 = rgba[4 * i + 3] as u32;
            argb.push((a << 24) | (r << 16) | (g << 8) | b);
            i = i + 1;
        }
        Sprite { width, height, argb }
    }
}

/// Writes one pixel, ignoring coordinates outside the sprite rectangle.
pub fn draw_pixel(sprite: &mut Sprite, x: i32, y: i32, color: u32)
    requires
        old(sprite).wf(),
    ensures
        final(sprite).wf(),
        final(sprite).width == old(sprite).width,
        final(sprite).height == old(sprite).height,
        0 <= x < old(sprite).width && 0 <= y < old(sprite).height ==> final(sprite).argb@ == old(
            sprite,
        ).argb@.update(y * old(sprite).width + x, color),
        !(0 <= x < old(sprite).width && 0 <= y < old(sprite).height) ==> *final(sprite) == *old(
            sprite,
        ),
{
    if x < 0 || y < 0 {
        return;
    }
    if x >= sprite.width as i32 || y >= sprite.height as i32 {
        return;
    }
    proof {
        assert((y as int) * (sprite.width as int) + (x as int) < (sprite.width as int) * (
        sprite.height as int)) by (nonlinear_arith)
            requires
                0 <= (x as int) < (sprite.width as int),
                0 <= (y as int) < (sprite.height as int),
        ;
    }
    let dest_ind: usize = (y as usize) * sprite.width + (x as usize);
    sprite.argb[dest_ind] = color;
}

/// The destination pixels after blitting the first `done_rows` full sprite
/// rows, and `done_cols` leading cells of row `done_rows`, of `src` onto
/// `dst0` at `(at_x, at_y)`: a fully opaque source pixel replaces the
/// destination pixel under it, every other pixel keeps its old value.
pub open spec fn spec_blit_partial(
    src: Seq<u32>,
    src_w: int,
    src_h: int,
    at_x: int,
    at_y: int,
    dst0: Seq<u32>,
    dst_w: int,
    done_rows: int,
    done_cols: int,
) -> Seq<u32> {
    Seq::new(
        dst0.len(),
        |p: int|
            {
                let sx: int = p % dst_w - at_x;
                let sy: int = p / dst_w - at_y;
                if 0 <= sx < src_w && 0 <= sy < src_h && (sy < done_rows || (sy == done_rows && sx
                    < done_cols)) && (src[sy * src_w + sx] & 0xff000000) >> 24 == 0xff {
                    src[sy * src_w + sx]
                } else {
                    dst0[p]
                }
            },
    )
}

/// The destination pixels after blitting all of `src` onto `dst0`.
pub open spec fn spec_blit(
    src: Seq<u32>,
    src_w: int,
    src_h: int,
    at_x: int,
    at_y: int,
    dst0: Seq<u32>,
    dst_w: int,
) -> Seq<u32> {
    spec_blit_partial(src, src_w, src_h, at_x, at_y, dst0, dst_w, src_h, 0)
}

/// Row-major coordinates of a position in a `w`-wide, `h`-tall buffer.
proof fn lemma_coords(p: int, w: int, h: int)
    requires
        w >= 0,
        h >= 0,
        0 <= p < w * h,
    ensures
        w > 0,
        0 <= p % w < w,
        0 <= p / w < h,
        p == (p / w) * w + (p % w),
{
    if w == 0 {
        assert(w * h == 0);
    }
    lemma_mod_division_less_than_divisor(p, w);
    lemma_fundamental_div_mod(p, w);
    lemma_div_pos_is_pos(p, w);
    assert(w * (p / w) == (p / w) * w) by (nonlinear_arith);
    if p / w >= h {
        lemma_mul_inequality(h, p / w, w);
        assert(w * h == h * w) by (nonlinear_arith);
        assert(false);
    }
}

/// A blit step over a sprite cell that lands off the screen or is not
/// fully opaque changes nothing.
proof fn lemma_blit_skip_cell(
    src: Seq<u32>,
    src_w: int,
    src_h: int,
    at_x: int,
    at_y: int,
    dst0: Seq<u32>,
    dst_w: int,
    dst_h: int,
    sy: int,
    sx: int,
)
    requires
        dst_w >= 0,
        dst_h >= 0,
        dst0.len() == dst_w * dst_h,
        0 <= sy < src_h,
        0 <= sx < src_w,
        at_x + sx < 0 || at_x + sx >= dst_w || at_y + sy < 0 || at_y + sy >= dst_h || (src[sy
            * src_w + sx] & 0xff000000) >> 24 != 0xff,
    ensures
        spec_blit_partial(src, src_w, src_h, at_x, at_y, dst0, dst_w, sy, sx) == spec_blit_partial(
            src,
            src_w,
            src_h,
            at_x,
            at_y,
            dst0,
            dst_w,
            sy,
            sx + 1,
        ),
{
    let a = spec_blit_partial(src, src_w, src_h, at_x, at_y, dst0, dst_w, sy, sx);
    let b = spec_blit_partial(src, src_w, src_h, at_x, at_y, dst0, dst_w, sy, sx + 1);
    assert forall|p: int| 0 <= p < dst0.len() implies a[p] == b[p] by {
        lemma_coords(p, dst_w, dst_h);
    }
    assert(a =~= b);
}

/// A blit step over a visible, fully opaque sprite cell writes exactly its
/// destination pixel.
proof fn lemma_blit_write_cell(
    src: Seq<u32>,
    src_w: int,
    src_h: int,
    at_x: int,
    at_y: int,
    dst0: Seq<u32>,
    dst_w: int,
    dst_h: int,
    sy: int,
    sx: int,
)
    requires
        dst_w >= 0,
        dst_h >= 0,
        dst0.len() == dst_w * dst_h,
        0 <= sy < src_h,
        0 <= sx < src_w,
        0 <= at_x + sx < dst_w,
        0 <= at_y + sy < dst_h,
        (src[sy * src_w + sx] & 0xff000000) >> 24 == 0xff,
    ensures
        0 <= (at_y + sy) * dst_w + (at_x + sx) < dst0.len(),
        spec_blit_partial(src, src_w, src_h, at_x, at_y, dst0, dst_w, sy, sx).update(
            (at_y + sy) * dst_w + (at_x + sx),
            src[sy * src_w + sx],
        ) == spec_blit_partial(src, src_w, src_h, at_x, at_y, dst0, dst_w, sy, sx + 1),
{
    let dest: int = (at_y + sy) * dst_w + (at_x + sx);
    assert(dest < dst_w * dst_h) by (nonlinear_arith)
        requires
            0 <= at_x + sx < dst_w,
            0 <= at_y + sy < dst_h,
            dest == (at_y + sy) * dst_w + (at_x + sx),
    ;
    lemma_fundamental_div_mod_converse_div(dest, dst_w, at_y + sy, at_x + sx);
    lemma_fundamental_div_mod_converse_mod(dest, dst_w, at_y + sy, at_x + sx);
    let a = spec_blit_partial(src, src_w, src_h, at_x, at_y, dst0, dst_w, sy, sx).update(
        dest,
        src[sy * src_w + sx],
    );
    let b = spec_blit_partial(src, src_w, src_h, at_x, at_y, dst0, dst_w, sy, sx + 1);
    assert forall|p: int| 0 <= p < dst0.len() implies a[p] == b[p] by {
        lemma_coords(p, dst_w, dst_h);
    }
    assert(a =~= b);
}

/// Finishing a sprite row is the same as standing at the start of the next.
proof fn lemma_blit_row_step(
    src: Seq<u32>,
    src_w: int,
    src_h: int,
    at_x: int,
    at_y: int,
    dst0: Seq<u32>,
    dst_w: int,
    sy: int,
)
    ensures
        spec_blit_partial(src, src_w, src_h, at_x, at_y, dst0, dst_w, sy, src_w)
            == spec_blit_partial(src, src_w, src_h, at_x, at_y, dst0, dst_w, sy + 1, 0),
{
    assert(spec_blit_partial(src, src_w, src_h, at_x, at_y, dst0, dst_w, sy, src_w)
        =~= spec_blit_partial(src, src_w, src_h, at_x, at_y, dst0, dst_w, sy + 1, 0));
}

/// A sprite row that lies wholly above or below the screen changes nothing.
proof fn lemma_blit_skip_row(
    src: Seq<u32>,
    src_w: int,
    src_h: int,
    at_x: int,
    at_y: int,
    dst0: Seq<u32>,
    dst_w: int,
    dst_h: int,
    sy: int,
)
    requires
        dst_w >= 0,
        dst_h >= 0,
        dst0.len() == dst_w * dst_h,
        at_y + sy < 0 || at_y + sy >= dst_h,
    ensures
        spec_blit_partial(src, src_w, src_h, at_x, at_y, dst0, dst_w, sy, 0) == spec_blit_partial(
            src,
            src_w,
            src_h,
            at_x,
            at_y,
            dst0,
            dst_w,
            sy + 1,
            0,
        ),
{
    let a = spec_blit_partial(src, src_w, src_h, at_x, at_y, dst0, dst_w, sy, 0);
    let b = spec_blit_partial(src, src_w, src_h, at_x, at_y, dst0, dst_w, sy + 1, 0);
    assert forall|p: int| 0 <= p < dst0.len() implies a[p] == b[p] by {
        lemma_coords(p, dst_w, dst_h);
    }
    assert(a =~= b);
}

/// Draws `sprite` into `screen` with its top-left corner at
/// `(sprite_x, sprite_y)`, clipped to the screen rectangle: a fully opaque
/// sprite pixel replaces the screen pixel under it, any other pixel of the
/// screen keeps its value.
#[verifier::loop_isolation(false)]
pub fn draw_sprite(sprite: &Sprite, sprite_x: i32, sprite_y: i32, screen: &mut Sprite)
    requires
        sprite.wf(),
        old(screen).wf(),
        sprite_x + sprite.width <= i32::MAX,
        sprite_y + sprite.height <= i32::MAX,
    ensures
        final(screen).wf(),
        final(screen).width == old(screen).width,
        final(screen).height == old(screen).height,
        final(screen).argb@ == spec_blit(
            sprite.argb@,
            sprite.width as int,
            sprite.height as int,
            sprite_x as int,
            sprite_y as int,
            old(screen).argb@,
            old(screen).width as int,
        ),
{
    let ghost dst0 = screen.argb@;
    let ghost sw = sprite.width as int;
    let ghost sh = sprite.height as int;
    let ghost ax = sprite_x as int;
    let ghost ay = sprite_y as int;
    let ghost dw = old(screen).width as int;
    let ghost dh = old(screen).height as int;
    let mut sy: usize = 0;
    while sy < sprite.height
        invariant
            sy <= sprite.height,
            screen.width == old(screen).width,
            screen.height == old(screen).height,
            screen.argb@ == spec_blit_partial(sprite.argb@, sw, sh, ax, ay, dst0, dw, sy as int, 0),
        decreases sprite.height - sy,
    {
        let y: i32 = sprite_y + sy as i32;
        if y >= 0 && y < screen.height as i32 {
            let mut sx: usize = 0;
            while sx < sprite.width
                invariant
                    sx <= sprite.width,
                    sy < sprite.height,
                    0 <= ay + sy < dh,
                    y == ay + sy,
                    screen.width == old(screen).width,
                    screen.height == old(screen).height,
                    screen.argb@ == spec_blit_partial(
                        sprite.argb@,
                        sw,
                        sh,
                        ax,
                        ay,
                        dst0,
                        dw,
                        sy as int,
                        sx as int,
                    ),
                decreases sprite.width - sx,
            {
                let x: i32 = sprite_x + sx as i32;
                if x >= 0 && x < screen.width as i32 {
                    proof {
                        assert((sy as int) * sw + (sx as int) < sw * sh) by (nonlinear_arith)
                            requires
                                0 <= (sx as int) < sw,
                                0 <= (sy as int) < sh,
                        ;
                    }
                    let src_ind: usize = sy * sprite.width + sx;
                    let src_pixel: u32 = sprite.argb[src_ind];
                    let src_alpha: u32 = (src_pixel & 0xff000000) >> 24;
                    if src_alpha == 0xff {
                        proof {
                            lemma_blit_write_cell(
                                sprite.argb@,
                                sw,
                                sh,
                                ax,
                                ay,
                                dst0,
                                dw,
                                dh,
                                sy as int,
                                sx as int,
                            );
                        }
                        let dest_ind: usize = (y as usize) * screen.width + (x as usize);
                        screen.argb[dest_ind] = src_pixel;
                    } else {
                        proof {
                            lemma_blit_skip_cell(
                                sprite.argb@,
                                sw,
                                sh,
                                ax,
                                ay,
                                dst0,
                                dw,
                                dh,
                                sy as int,
                                sx as int,
                            );
                        }
                    }
                } else {
                    proof {
                        lemma_blit_skip_cell(
                            sprite.argb@,
                            sw,
                            sh,
                            ax,
                            ay,
                            dst0,
                            dw,
                            dh,
                            sy as int,
                            sx as int,
                        );
                    }
                }
                sx = sx + 1;
            }
            proof {
                lemma_blit_row_step(sprite.argb@, sw, sh, ax, ay, dst0, dw, sy as int);
            }
        } else {
            proof {
                lemma_blit_skip_row(sprite.argb@, sw, sh, ax, ay, dst0, dw, dh, sy as int);
            }
        }
        sy = sy + 1;
    }
}

/// Writes the top-left pixel of the scaled map cell `(xi, yi)` in a buffer
/// whose rows are `map_width * map_sc` pixels wide.
pub fn small_pixel(
    map_buffer: &mut Vec<u32>,
    map_width: usize,
    map_sc: usize,
    yi: usize,
    xi: usize,
    color: u32,
)
    requires
        map_width >= 1,
        map_sc >= 1,
        map_width * map_sc <= usize::MAX,
        (yi * map_sc) * (map_width * map_sc) + xi * map_sc < old(map_buffer)@.len(),
    ensures
        final(map_buffer)@ == old(map_buffer)@.update(
            (yi * map_sc) * (map_width * map_sc) + xi * map_sc,
            color,
        ),
{
    let n: usize = map_buffer.len();
    proof {
        assert(map_width * map_sc >= 1 && yi * map_sc >= 0 && xi * map_sc >= 0 && (yi * map_sc)
            * (map_width * map_sc) >= yi * map_sc) by (nonlinear_arith)
            requires
                map_width >= 1,
                map_sc >= 1,
                yi >= 0,
                xi >= 0,
        ;
    }
    let pi: usize = (yi * map_sc) * (map_width * map_sc) + xi * map_sc;
    map_buffer[pi] = color;
}

/// The buffer after coloring the first `done_cols` full columns, and
/// `done_rows` leading cells of column `done_cols`, of the scaled map cell
/// `(xi, yi)`: every pixel of the cell's `map_sc`-by-`map_sc` block takes
/// `color`, every other pixel keeps its old value.
pub open spec fn spec_big_pixel_partial(
    dst0: Seq<u32>,
    stride: int,
    yi: int,
    xi: int,
    sc: int,
    color: u32,
    done_cols: int,
    done_rows: int,
) -> Seq<u32> {
    Seq::new(
        dst0.len(),
        |p: int|
            {
                let oy: int = p / stride - yi * sc;
                let ox: int = p % stride - xi * sc;
                if 0 <= oy < sc && 0 <= ox < sc && (ox < done_cols || (ox == done_cols && oy
                    < done_rows)) {
                    color
                } else {
                    dst0[p]
                }
            },
    )
}

/// The buffer after coloring the whole scaled map cell `(xi, yi)`.
pub open spec fn spec_big_pixel(
    dst0: Seq<u32>,
    stride: int,
    yi: int,
    xi: int,
    sc: int,
    color: u32,
) -> Seq<u32> {
    spec_big_pixel_partial(dst0, stride, yi, xi, sc, color, sc, 0)
}

/// One written pixel of the block extends the partially colored cell.
proof fn lemma_big_pixel_write(
    dst0: Seq<u32>,
    stride: int,
    yi: int,
    xi: int,
    sc: int,
    color: u32,
    ox: int,
    oy: int,
)
    requires
        stride >= 1,
        yi >= 0,
        xi >= 0,
        0 <= ox < sc,
        0 <= oy < sc,
        xi * sc + sc <= stride,
        (yi * sc + sc) * stride <= dst0.len(),
    ensures
        0 <= yi * sc,
        0 <= xi * sc,
        yi * sc + oy <= (yi * sc + oy) * stride,
        0 <= (yi * sc + oy) * stride + (xi * sc + ox) < dst0.len(),
        spec_big_pixel_partial(dst0, stride, yi, xi, sc, color, ox, oy).update(
            (yi * sc + oy) * stride + (xi * sc + ox),
            color,
        ) == spec_big_pixel_partial(dst0, stride, yi, xi, sc, color, ox, oy + 1),
{
    let row: int = yi * sc + oy;
    let col: int = xi * sc + ox;
    let dest: int = row * stride + col;
    assert(0 <= xi * sc && 0 <= yi * sc) by (nonlinear_arith)
        requires
            xi >= 0,
            yi >= 0,
            sc > 0,
    ;
    lemma_mul_inequality(row, yi * sc + sc - 1, stride);
    assert((yi * sc + sc - 1) * stride + stride == (yi * sc + sc) * stride) by (nonlinear_arith);
    assert(row <= row * stride) by (nonlinear_arith)
        requires
            row >= 0,
            stride >= 1,
    ;
    assert(row * stride >= 0) by (nonlinear_arith)
        requires
            row >= 0,
            stride >= 1,
    ;
    lemma_fundamental_div_mod_converse_div(dest, stride, row, col);
    lemma_fundamental_div_mod_converse_mod(dest, stride, row, col);
    let a = spec_big_pixel_partial(dst0, stride, yi, xi, sc, color, ox, oy).update(dest, color);
    let b = spec_big_pixel_partial(dst0, stride, yi, xi, sc, color, ox, oy + 1);
    assert forall|p: int| 0 <= p < dst0.len() implies a[p] == b[p] by {
        lemma_mod_division_less_than_divisor(p, stride);
        lemma_fundamental_div_mod(p, stride);
        assert(stride * (p / stride) == (p / stride) * stride) by (nonlinear_arith);
    }
    assert(a =~= b);
}

/// Finishing a block column is the same as standing at the start of the
/// next.
proof fn lemma_big_pixel_col_step(
    dst0: Seq<u32>,
    stride: int,
    yi: int,
    xi: int,
    sc: int,
    color: u32,
    ox: int,
)
    ensures
        spec_big_pixel_partial(dst0, stride, yi, xi, sc, color, ox, sc) == spec_big_pixel_partial(
            dst0,
            stride,
            yi,
            xi,
            sc,
            color,
            ox + 1,
            0,
        ),
{
    assert(spec_big_pixel_partial(dst0, stride, yi, xi, sc, color, ox, sc)
        =~= spec_big_pixel_partial(dst0, stride, yi, xi, sc, color, ox + 1, 0));
}

/// Colors the whole `map_sc`-by-`map_sc` block of the scaled map cell
/// `(xi, yi)` in a buffer whose rows are `map_width * map_sc` pixels wide.
#[verifier::loop_isolation(false)]
pub fn big_pixel(
    map_buffer: &mut Vec<u32>,
    map_width: usize,
    map_sc: usize,
    yi: usize,
    xi: usize,
    color: u32,
)
    requires
        map_width >= 1,
        map_sc >= 1,
        xi < map_width,
        (yi * map_sc + map_sc) * (map_width * map_sc) <= old(map_buffer)@.len(),
    ensures
        final(map_buffer)@ == spec_big_pixel(
            old(map_buffer)@,
            map_width * map_sc,
            yi as int,
            xi as int,
            map_sc as int,
            color,
        ),
{
    let ghost dst0 = map_buffer@;
    proof {
        assert(map_width * map_sc >= 1 && yi * map_sc >= 0 && xi * map_sc >= 0 && map_width
            * map_sc <= (yi * map_sc + map_sc) * (map_width * map_sc) && xi * map_sc + map_sc
            <= map_width * map_sc) by (nonlinear_arith)
            requires
                map_width >= 1,
                map_sc >= 1,
                yi >= 0,
                xi >= 0,
                xi < map_width,
        ;
    }
    let n: usize = map_buffer.len();
    let stride: usize = map_width * map_sc;
    let mut ox: usize = 0;
    while ox < map_sc
        invariant
            ox <= map_sc,
            map_buffer@ == spec_big_pixel_partial(
                dst0,
                stride as int,
                yi as int,
                xi as int,
                map_sc as int,
                color,
                ox as int,
                0,
            ),
        decreases map_sc - ox,
    {
        let mut oy: usize = 0;
        while oy < map_sc
            invariant
                ox < map_sc,
                oy <= map_sc,
                map_buffer@ == spec_big_pixel_partial(
                    dst0,
                    stride as int,
                    yi as int,
                    xi as int,
                    map_sc as int,
                    color,
                    ox as int,
                    oy as int,
                ),
            decreases map_sc - oy,
        {
            proof {
                lemma_big_pixel_write(
                    dst0,
                    stride as int,
                    yi as int,
                    xi as int,
                    map_sc as int,
                    color,
                    ox as int,
                    oy as int,
                );
            }
            let pi: usize = (yi * map_sc + oy) * stride + (xi * map_sc + ox);
            map_buffer[pi] = color;
            oy = oy + 1;
        }
        proof {
            lemma_big_pixel_col_step(
                dst0,
                stride as int,
                yi as int,
                xi as int,
                map_sc as int,
                color,
                ox as int,
            );
        }
        ox = ox + 1;
    }
}

} // verus!
