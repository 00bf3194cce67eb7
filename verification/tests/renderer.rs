use scanlines::mask::make_rgb_grid;
use scanlines::raster::{Image, Pixel};
use scanlines::render::render_scanlines;

fn px(r: u8, g: u8, b: u8) -> Pixel {
    Pixel { r, g, b }
}

fn image_of(width: usize, height: usize, pixels: Vec<Pixel>) -> Image {
    assert_eq!(pixels.len(), width * height);
    Image::from_pixels(width, height, pixels)
}

fn uniform_image(width: usize, height: usize, p: Pixel) -> Image {
    image_of(width, height, vec![p; width * height])
}

#[test]
fn mask_table_default_values() {
    let grid = make_rgb_grid(180, 50);
    // Accent cells: 255 on the active channel, mask_strength on the others.
    assert_eq!(grid[0][0], [255, 180, 180]);
    assert_eq!(grid[0][1], [180, 255, 180]);
    assert_eq!(grid[0][2], [180, 180, 255]);
    // Gap-blend cells with gap_high = 205 and gap_low = 130.
    assert_eq!(grid[1][3], [205, 130, 130]);
    assert_eq!(grid[1][4], [130, 205, 130]);
    assert_eq!(grid[3][0], [205, 130, 130]);
    assert_eq!(grid[5][5], [130, 130, 205]);
    assert_eq!(grid[7][2], [130, 130, 205]);
    // The left half of row 1 is still an accent band.
    assert_eq!(grid[1][0], [255, 180, 180]);
    // Even rows never blend.
    assert_eq!(grid[2][3], [255, 180, 180]);
    assert_eq!(grid[4][4], [180, 255, 180]);
    assert_eq!(grid[6][5], [180, 180, 255]);
}

#[test]
fn mask_table_saturates_gap_low() {
    // gap_strength above mask_strength floors the dim component at 0.
    let grid = make_rgb_grid(50, 180);
    assert_eq!(grid[3][0], [75, 0, 0]);
    assert_eq!(grid[3][1], [0, 75, 0]);
    assert_eq!(grid[0][0], [255, 50, 50]);
}

#[test]
fn destination_dimensions_are_four_times_source() {
    let src = uniform_image(3, 2, px(10, 20, 30));
    let dst = render_scanlines(&src, 180, 50);
    assert_eq!(dst.width, 12);
    assert_eq!(dst.height, 8);
    assert_eq!(dst.pixels.len(), 96);
}

#[test]
fn empty_source_gives_empty_destination() {
    let src = image_of(0, 0, Vec::new());
    let dst = render_scanlines(&src, 180, 50);
    assert_eq!(dst.width, 0);
    assert_eq!(dst.height, 0);
    assert_eq!(dst.pixels.len(), 0);
}

#[test]
fn black_source_renders_black() {
    let src = uniform_image(1, 1, px(0, 0, 0));
    let dst = render_scanlines(&src, 180, 50);
    assert_eq!(dst.width, 4);
    assert_eq!(dst.height, 4);
    for y in 0..4 {
        for x in 0..4 {
            assert_eq!(dst.get(x, y), px(0, 0, 0));
        }
    }
}

#[test]
fn row_start_blurs_toward_black() {
    // At column 0 the i = 0 sub-column averages the pixel with black:
    // r: (200+0)/2 = 100, minus the top-row gap of 60 = 40, boosted
    // (40 + 40/8) * 255 / 200 = 57; g: 50 - 60 floors at 0; b likewise.
    let src = uniform_image(1, 1, px(200, 100, 40));
    let dst = render_scanlines(&src, 180, 50);
    assert_eq!(dst.get(0, 0), px(57, 0, 0));
}

#[test]
fn row_start_ignores_previous_row_end() {
    // Two sources that agree on column 0 but end their rows differently
    // must produce identical output in the first block column.
    let a = px(90, 120, 150);
    let src1 = image_of(2, 2, vec![a, px(1, 2, 3), a, px(4, 5, 6)]);
    let src2 = image_of(2, 2, vec![a, px(200, 9, 77), a, px(66, 250, 8)]);
    let dst1 = render_scanlines(&src1, 180, 50);
    let dst2 = render_scanlines(&src2, 180, 50);
    for dy in 0..8 {
        for dx in 0..4 {
            assert_eq!(dst1.get(dx, dy), dst2.get(dx, dy));
        }
    }
}

#[test]
fn blend_formula_exact_values() {
    // Second block, i = 1 sub-column, middle sub-row: the blend is
    // (3*100 + 200)/4 = 125, boosted (125 + 15) * m / 200 under mask
    // row 1, column 5, a gap-blend cell (130, 130, 205).
    let src = image_of(2, 1, vec![px(200, 200, 200), px(100, 100, 100)]);
    let dst = render_scanlines(&src, 180, 50);
    assert_eq!(dst.get(5, 1), px(91, 91, 143));
}

#[test]
fn cursor_continues_across_block_boundary() {
    // A uniform source makes every block's input identical, so any
    // difference between blocks comes from the mask cursor alone. At
    // dx = 4 the cursor sits at column 4 of the tile (not 0): mask row 1,
    // column 4 is the gap-blend cell (130, 205, 130).
    let src = uniform_image(2, 1, px(100, 100, 100));
    let dst = render_scanlines(&src, 180, 50);
    assert_eq!(dst.get(4, 1), px(72, 114, 72));
    // At dx = 6 the cursor wraps back to tile column 0: red carries 255.
    assert_eq!(dst.get(6, 1), px(142, 100, 100));
    // Had the cursor reset at the block boundary, dx = 4 would have used
    // tile column 0 as well and the two pixels would be equal.
    assert_ne!(dst.get(4, 1), dst.get(6, 1));
}

#[test]
fn cursor_continues_across_rows() {
    // With a uniform source, destination rows whose cursor rows coincide
    // modulo 8 are identical even though they come from different source
    // rows: the row cursor wraps instead of resetting per source row.
    let src = uniform_image(1, 3, px(100, 100, 100));
    let dst = render_scanlines(&src, 180, 50);
    for dx in 0..4 {
        assert_eq!(dst.get(dx, 0), dst.get(dx, 8));
        assert_eq!(dst.get(dx, 1), dst.get(dx, 9));
    }
}

#[test]
fn rendering_twice_is_identical() {
    let pixels = vec![
        px(1, 2, 3),
        px(250, 10, 128),
        px(60, 61, 62),
        px(0, 255, 0),
        px(17, 170, 7),
        px(99, 100, 101),
    ];
    let src = image_of(3, 2, pixels);
    let dst1 = render_scanlines(&src, 180, 50);
    let dst2 = render_scanlines(&src, 180, 50);
    assert_eq!(dst1.width, dst2.width);
    assert_eq!(dst1.height, dst2.height);
    for dy in 0..dst1.height {
        for dx in 0..dst1.width {
            assert_eq!(dst1.get(dx, dy), dst2.get(dx, dy));
        }
    }
}

#[test]
fn bright_input_clamps_to_byte_range() {
    // With mask_strength = 255 and gap_strength = 0 every mask channel is
    // 255. At (1, 1) the blend is (3*255 + 0)/4 = 191 and the boost gives
    // (191 + 23) * 255 / 200 = 272, which must clamp to 255, not wrap.
    let src = uniform_image(2, 2, px(255, 255, 255));
    let dst = render_scanlines(&src, 255, 0);
    assert_eq!(dst.get(1, 1), px(255, 255, 255));
    // At (0, 1) the blend is (255 + 0)/2 = 127 and the boost gives
    // (127 + 15) * 255 / 200 = 181, below the clamp.
    assert_eq!(dst.get(0, 1), px(181, 181, 181));
}
