//! The scanline renderer: expands every source pixel into a 4x4 block of
//! destination pixels, combining horizontal blur, scanline gap darkening and
//! the tiled phosphor-mask multiply.

use vstd::prelude::*;
use crate::mask::{make_rgb_grid, mask_col_cursor, mask_row_cursor, mask_val};
use crate::raster::{black, Image, Pixel};

verus! {

/// Horizontal-blur base value for sub-column `i`: the leftmost sub-column
/// averages the current and previous channel values, the next blends them
/// 3:1, the right half keeps the current value. Division truncates.
pub open spec fn blur(cur: int, prev: int, i: int) -> int
    recommends
        0 <= i < 4,
{
    if i == 0 {
        (cur + prev) / 2
    } else if i == 1 {
        (cur * 3 + prev) / 4
    } else {
        cur
    }
}

/// Scanline-gap attenuation for sub-row `j`: the top sub-row loses 60, the
/// bottom sub-row loses 120, both floored at 0; the middle rows pass through.
pub open spec fn gap(v: int, j: int) -> int
    recommends
        0 <= j < 4,
{
    if j == 0 {
        if v - 60 < 0 {
            0
        } else {
            v - 60
        }
    } else if j == 3 {
        if v - 120 < 0 {
            0
        } else {
            v - 120
        }
    } else {
        v
    }
}

/// Brightness boost, mask multiply and normalisation: the value gains an
/// eighth of itself, is multiplied by the mask channel and divided by 200
/// (all truncating), then clamped to a byte.
pub open spec fn boost(v: int, m: int) -> int {
    let scaled = ((v + v / 8) * m) / 200;
    if scaled < 0 {
        0
    } else if scaled > 255 {
        255
    } else {
        scaled
    }
}

/// One destination channel value: blur, gap and boost applied in order to
/// the current and previous source channel values under mask channel `m`.
pub open spec fn channel_spec(cur: u8, prev: u8, m: u8, i: int, j: int) -> u8
    recommends
        0 <= i < 4,
        0 <= j < 4,
{
    boost(gap(blur(cur as int, prev as int, i), j), m as int) as u8
}

/// The destination pixel at raster coordinate `(dx, dy)`: the source pixel
/// is the one whose 4x4 block covers the coordinate, the previous pixel is
/// its left neighbour in the same source row (black at the row start), and
/// the mask cell is addressed by the free-running tile cursor.
#[verifier::opaque]
pub open spec fn dst_pixel_spec(src: Image, mask_strength: u8, gap_strength: u8, dx: int, dy: int) -> Pixel
    recommends
        src.wf(),
        0 <= dx < 4 * src.width,
        0 <= dy < 4 * src.height,
{
    let x = dx / 4;
    let y = dy / 4;
    let i = dx % 4;
    let j = dy % 4;
    let cur = src.pixel(x, y);
    let prev = if x == 0 {
        black()
    } else {
        src.pixel(x - 1, y)
    };
    let row = mask_row_cursor(dy);
    let col = mask_col_cursor(dx);
    Pixel {
        r: channel_spec(cur.r, prev.r, mask_val(mask_strength, gap_strength, row, col, 0), i, j),
        g: channel_spec(cur.g, prev.g, mask_val(mask_strength, gap_strength, row, col, 1), i, j),
        b: channel_spec(cur.b, prev.b, mask_val(mask_strength, gap_strength, row, col, 2), i, j),
    }
}

/// Computes one destination channel exactly as `channel_spec` states it.
fn expand_channel(cur: u8, prev: u8, m: u8, i: usize, j: usize) -> (c: u8)
    requires
        i < 4,
        j < 4,
    ensures
        c == channel_spec(cur, prev, m, i as int, j as int),
{
    let cur32 = cur as u32;
    let prev32 = prev as u32;
    let mut comp: u32 = if i == 0 {
        (cur32 + prev32) / 2
    } else if i == 1 {
        (cur32 * 3 + prev32) / 4
    } else {
        cur32
    };
    if j == 0 {
        comp = if comp >= 60 {
            comp - 60
        } else {
            0
        };
    }
    if j == 3 {
        comp = if comp >= 120 {
            comp - 120
        } else {
            0
        };
    }
    proof {
        assert(comp <= 255);
        assert((comp + comp / 8) * m <= 286 * 255) by (nonlinear_arith)
            requires
                comp <= 255,
                m <= 255,
        ;
    }
    let mut out: u32 = ((comp + comp / 8) * (m as u32)) / 200;
    if out > 255 {
        out = 255;
    }
    out as u8
}

/// Computes the destination pixel at `(dx, dy)` from the source, the
/// generated mask tile and the current cursor position.
fn expand_pixel(
    src: &Image,
    grid: &[[[u8; 3]; 6]; 8],
    mask_strength: u8,
    gap_strength: u8,
    dx: usize,
    dy: usize,
    grid_x: usize,
    grid_y: usize,
) -> (p: Pixel)
    requires
        src.wf(),
        dx < 4 * src.width,
        dy < 4 * src.height,
        grid_x == dx % 6,
        grid_y == dy % 8,
        forall|r: int, c: int, k: int|
            0 <= r < 8 && 0 <= c < 6 && 0 <= k < 3 ==> #[trigger] grid[r][c][k] == mask_val(
                mask_strength,
                gap_strength,
                r,
                c,
                k,
            ),
    ensures
        p == dst_pixel_spec(*src, mask_strength, gap_strength, dx as int, dy as int),
{
    proof {
        reveal(dst_pixel_spec);
    }
    let x = dx / 4;
    let i = dx % 4;
    let y = dy / 4;
    let j = dy % 4;
    let cur = src.get(x, y);
    let prev = if x == 0 {
        Pixel { r: 0, g: 0, b: 0 }
    } else {
        src.get(x - 1, y)
    };
    let cell = grid[grid_y][grid_x];
    Pixel {
        r: expand_channel(cur.r, prev.r, cell[0], i, j),
        g: expand_channel(cur.g, prev.g, cell[1], i, j),
        b: expand_channel(cur.b, prev.b, cell[2], i, j),
    }
}

/// Renders the CRT effect: the destination is exactly 4x the source in each
/// dimension and every destination pixel carries the value `dst_pixel_spec`
/// assigns to its coordinate.
#[verifier::loop_isolation(false)]
pub fn render_scanlines(src: &Image, mask_strength: u8, gap_strength: u8) -> (dst: Image)
    requires
        src.wf(),
        4 * src.width <= usize::MAX,
        4 * src.height <= usize::MAX,
        16 * (src.width * src.height) <= usize::MAX,
    ensures
        dst.wf(),
        dst.width == 4 * src.width,
        dst.height == 4 * src.height,
        forall|dx: int, dy: int|
            0 <= dx < dst.width && 0 <= dy < dst.height ==> #[trigger] dst.pixel(dx, dy)
                == dst_pixel_spec(*src, mask_strength, gap_strength, dx, dy),
{
    let grid = make_rgb_grid(mask_strength, gap_strength);
    let dst_w = 4 * src.width;
    let dst_h = 4 * src.height;
    let mut pixels: Vec<Pixel> = Vec::new();
    let mut grid_y: usize = 0;
    let mut dy: usize = 0;
    while dy < dst_h
        invariant
            dy <= dst_h,
            grid_y == dy % 8,
            pixels@.len() == dy * dst_w,
            forall|n: int|
                0 <= n < pixels@.len() ==> #[trigger] pixels@[n] == dst_pixel_spec(
                    *src,
                    mask_strength,
                    gap_strength,
                    n % dst_w as int,
                    n / dst_w as int,
                ),
        decreases dst_h - dy,
    {
        let mut grid_x: usize = 0;
        let mut dx: usize = 0;
        while dx < dst_w
            invariant
                dx <= dst_w,
                grid_x == dx % 6,
                pixels@.len() == dy * dst_w + dx,
                forall|n: int|
                    0 <= n < pixels@.len() ==> #[trigger] pixels@[n] == dst_pixel_spec(
                        *src,
                        mask_strength,
                        gap_strength,
                        n % dst_w as int,
                        n / dst_w as int,
                    ),
            decreases dst_w - dx,
        {
            let px = expand_pixel(src, &grid, mask_strength, gap_strength, dx, dy, grid_x, grid_y);
            proof {
                assert(dy * dst_w + dx < dst_h * dst_w) by (nonlinear_arith)
                    requires
                        dy < dst_h,
                        dx < dst_w,
                ;
                vstd::arithmetic::div_mod::lemma_fundamental_div_mod_converse(
                    dy * dst_w + dx,
                    dst_w as int,
                    dy as int,
                    dx as int,
                );
            }
            pixels.push(px);
            dx = dx + 1;
            grid_x = if grid_x + 1 == 6 {
                0
            } else {
                grid_x + 1
            };
        }
        proof {
            assert((dy + 1) * dst_w == dy * dst_w + dst_w) by (nonlinear_arith);
        }
        dy = dy + 1;
        grid_y = if grid_y + 1 == 8 {
            0
        } else {
            grid_y + 1
        };
    }
    proof {
        assert(dst_h * dst_w == dst_w * dst_h) by (nonlinear_arith);
    }
    let dst = Image::from_pixels(dst_w, dst_h, pixels);
    proof {
        assert forall|dx: int, dy: int|
            0 <= dx < dst.width && 0 <= dy < dst.height implies #[trigger] dst.pixel(dx, dy)
            == dst_pixel_spec(*src, mask_strength, gap_strength, dx, dy) by {
            assert(0 <= dy * dst_w + dx < dst_h * dst_w) by (nonlinear_arith)
                requires
                    0 <= dx < dst_w,
                    0 <= dy < dst_h,
            ;
            vstd::arithmetic::div_mod::lemma_fundamental_div_mod_converse(
                dy * dst_w + dx,
                dst_w as int,
                dy,
                dx,
            );
        }
    }
    dst
}

/// Every destination channel value lies in [0, 255]: the value the pipeline
/// computes for any inputs is already a byte before it is stored.
pub proof fn lemma_channel_in_range(cur: u8, prev: u8, m: u8, i: int, j: int)
    ensures
        0 <= boost(gap(blur(cur as int, prev as int, i), j), m as int) <= 255,
{
}

/// An all-black source renders all black: with both the current and the
/// previous pixel at zero the blur terms are zero, the clamped gap
/// subtraction keeps zero, and zero times any mask channel is zero.
pub proof fn lemma_black_source_renders_black(
    src: Image,
    mask_strength: u8,
    gap_strength: u8,
    dx: int,
    dy: int,
)
    requires
        src.wf(),
        forall|x: int, y: int|
            0 <= x < src.width && 0 <= y < src.height ==> #[trigger] src.pixel(x, y) == black(),
        0 <= dx < 4 * src.width,
        0 <= dy < 4 * src.height,
    ensures
        dst_pixel_spec(src, mask_strength, gap_strength, dx, dy) == black(),
{
    reveal(dst_pixel_spec);
    vstd::arithmetic::div_mod::lemma_multiply_divide_lt(dx, 4, src.width as int);
    vstd::arithmetic::div_mod::lemma_multiply_divide_lt(dy, 4, src.height as int);
    assert(src.pixel(dx / 4, dy / 4) == black());
    if dx / 4 > 0 {
        assert(src.pixel(dx / 4 - 1, dy / 4) == black());
    }
    assert forall|m: int| 0 <= m implies #[trigger] boost(0, m) == 0 by {
        assert((0int + 0int / 8) * m == 0) by (nonlinear_arith);
    }
}

/// At a row start the previous-pixel state is black, so the `i = 0`
/// sub-column blend is exactly `current / 2`.
pub proof fn lemma_row_start_blur(c: u8)
    ensures
        blur(c as int, black().r as int, 0) == c as int / 2,
{
}

/// No cross-row contamination: the four destination columns produced from
/// source column 0 depend only on the source pixel at column 0 of their own
/// row, never on state left behind by the end of the previous row.
pub proof fn lemma_no_cross_row_contamination(
    src1: Image,
    src2: Image,
    mask_strength: u8,
    gap_strength: u8,
    dx: int,
    dy: int,
)
    requires
        src1.wf(),
        src2.wf(),
        src1.width == src2.width,
        src1.height == src2.height,
        src1.width > 0,
        0 <= dx < 4,
        0 <= dy < 4 * src1.height,
        src1.pixel(0, dy / 4) == src2.pixel(0, dy / 4),
    ensures
        dst_pixel_spec(src1, mask_strength, gap_strength, dx, dy) == dst_pixel_spec(
            src2,
            mask_strength,
            gap_strength,
            dx,
            dy,
        ),
{
    reveal(dst_pixel_spec);
    assert(dx / 4 == 0);
}

/// The transform is deterministic: any two destination images that both
/// meet the renderer's contract for the same source and configuration are
/// identical, so rendering the same source twice gives the same bytes.
pub proof fn lemma_render_deterministic(
    src: Image,
    mask_strength: u8,
    gap_strength: u8,
    dst1: Image,
    dst2: Image,
)
    requires
        src.wf(),
        dst1.wf(),
        dst2.wf(),
        dst1.width == 4 * src.width,
        dst1.height == 4 * src.height,
        dst2.width == 4 * src.width,
        dst2.height == 4 * src.height,
        forall|dx: int, dy: int|
            0 <= dx < dst1.width && 0 <= dy < dst1.height ==> #[trigger] dst1.pixel(dx, dy)
                == dst_pixel_spec(src, mask_strength, gap_strength, dx, dy),
        forall|dx: int, dy: int|
            0 <= dx < dst2.width && 0 <= dy < dst2.height ==> #[trigger] dst2.pixel(dx, dy)
                == dst_pixel_spec(src, mask_strength, gap_strength, dx, dy),
    ensures
        dst1.width == dst2.width,
        dst1.height == dst2.height,
        dst1.pixels@ == dst2.pixels@,
{
    let w = dst1.width as int;
    let h = dst1.height as int;
    assert forall|n: int| 0 <= n < dst1.pixels@.len() implies dst1.pixels@[n]
        == dst2.pixels@[n] by {
        vstd::arithmetic::div_mod::lemma_multiply_divide_lt(n, w, h);
        vstd::arithmetic::div_mod::lemma_mod_bound(n, w);
        vstd::arithmetic::div_mod::lemma_fundamental_div_mod(n, w);
        let dx = n % w;
        let dy = n / w;
        assert(w * dy == dy * w) by (nonlinear_arith);
        assert(n == dy * w + dx);
        assert(dst1.pixel(dx, dy) == dst_pixel_spec(src, mask_strength, gap_strength, dx, dy));
        assert(dst2.pixel(dx, dy) == dst_pixel_spec(src, mask_strength, gap_strength, dx, dy));
    }
    assert(dst1.pixels@ =~= dst2.pixels@);
}

} // verus!

