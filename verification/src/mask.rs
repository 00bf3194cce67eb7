//! The phosphor mask: an 8-row by 6-column tile of RGB multiplier triples,
//! generated from two scalar parameters, plus the cursor arithmetic that
//! tiles it seamlessly across the whole output raster.

use vstd::prelude::*;

verus! {

/// The brighter component of a gap-blend cell: `255 - gap_strength`.
pub open spec fn gap_high(gap_strength: u8) -> u8 {
    (255 - gap_strength) as u8
}

/// The dimmer component of a gap-blend cell: `mask_strength - gap_strength`,
/// saturating at 0.
pub open spec fn gap_low(mask_strength: u8, gap_strength: u8) -> u8 {
    if mask_strength >= gap_strength {
        (mask_strength - gap_strength) as u8
    } else {
        0
    }
}

/// Whether tile cell `(row, col)` belongs to a gap-blend band rather than a
/// pure-accent band: rows 1 and 5 blend in their right half (columns 3..6),
/// rows 3 and 7 in their left half (columns 0..3), the even rows never.
pub open spec fn in_gap_band(row: int, col: int) -> bool {
    ||| (row == 1 || row == 5) && 3 <= col < 6
    ||| (row == 3 || row == 7) && 0 <= col < 3
}

/// Channel `k` of tile cell `(row, col)`. Columns cycle through red, green
/// and blue accents: the active channel (`col % 3`) carries 255 in an accent
/// cell and `gap_high` in a gap-blend cell, the other two channels carry
/// `mask_strength` and `gap_low` respectively.
pub open spec fn mask_val(
    mask_strength: u8,
    gap_strength: u8,
    row: int,
    col: int,
    k: int,
) -> u8
    recommends
        0 <= row < 8,
        0 <= col < 6,
        0 <= k < 3,
{
    if in_gap_band(row, col) {
        if col % 3 == k {
            gap_high(gap_strength)
        } else {
            gap_low(mask_strength, gap_strength)
        }
    } else {
        if col % 3 == k {
            255
        } else {
            mask_strength
        }
    }
}

/// Builds the 8x6 mask tile from the two scalar parameters: `ocs` is the
/// brightness of the two inactive channels of an accent cell, `scrf` the
/// contrast applied to the gap-blend cells.
pub fn make_rgb_grid(ocs: u8, scrf: u8) -> (grid: [[[u8; 3]; 6]; 8])
    ensures
        forall|r: int, c: int, k: int|
            0 <= r < 8 && 0 <= c < 6 && 0 <= k < 3 ==> #[trigger] grid[r][c][k] == mask_val(
                ocs,
                scrf,
                r,
                c,
                k,
            ),
{
    let sc2 = 255u8 - scrf;
    let sc1 = if ocs >= scrf {
        ocs - scrf
    } else {
        0
    };

    let accent_row: [[u8; 3]; 6] = [
        [255, ocs, ocs],
        [ocs, 255, ocs],
        [ocs, ocs, 255],
        [255, ocs, ocs],
        [ocs, 255, ocs],
        [ocs, ocs, 255],
    ];
    let gap_right_row: [[u8; 3]; 6] = [
        [255, ocs, ocs],
        [ocs, 255, ocs],
        [ocs, ocs, 255],
        [sc2, sc1, sc1],
        [sc1, sc2, sc1],
        [sc1, sc1, sc2],
    ];
    let gap_left_row: [[u8; 3]; 6] = [
        [sc2, sc1, sc1],
        [sc1, sc2, sc1],
        [sc1, sc1, sc2],
        [255, ocs, ocs],
        [ocs, 255, ocs],
        [ocs, ocs, 255],
    ];

    let grid: [[[u8; 3]; 6]; 8] = [
        accent_row,
        gap_right_row,
        accent_row,
        gap_left_row,
        accent_row,
        gap_right_row,
        accent_row,
        gap_left_row,
    ];
    grid
}

/// The mask column addressed while producing destination column `dx`: the
/// column cursor advances once per sub-pixel and wraps at 6.
pub open spec fn mask_col_cursor(dx: int) -> int {
    dx % 6
}

/// The mask row addressed while producing destination row `dy`: the row
/// cursor advances once per sub-row and wraps at 8.
pub open spec fn mask_row_cursor(dy: int) -> int {
    dy % 8
}

/// The mask-tile cursor is periodic with period 6 columns by 8 rows:
/// moving six destination columns to the right, or eight destination rows
/// down, addresses the same tile cell again.
pub proof fn lemma_cursor_periodic(dx: int, dy: int)
    ensures
        mask_col_cursor(dx + 6) == mask_col_cursor(dx),
        mask_row_cursor(dy + 8) == mask_row_cursor(dy),
{
    vstd::arithmetic::div_mod::lemma_mod_multiples_vanish(1, dx, 6);
    vstd::arithmetic::div_mod::lemma_mod_multiples_vanish(1, dy, 8);
}

/// The column cursor does not reset at 4x4 block boundaries: a source pixel
/// spans sixteen sub-pixels, each advancing the cursor once, and the cursor
/// entering the block of source pixel `x + 1` is exactly the cursor entering
/// the block of source pixel `x` advanced sixteen steps with wraparound.
pub proof fn lemma_cursor_continuous_across_blocks(x: int)
    ensures
        mask_col_cursor(4 * (x + 1)) == (mask_col_cursor(4 * x) + 16) % 6,
{
    let a = 4 * x;
    vstd::arithmetic::div_mod::lemma_fundamental_div_mod(a, 6);
    vstd::arithmetic::div_mod::lemma_mod_multiples_vanish(-(a / 6), a + 16, 6);
    vstd::arithmetic::div_mod::lemma_mod_multiples_vanish(2, a + 4, 6);
}

/// The row cursor does not reset at source row boundaries: a source row
/// spans four sub-rows, each advancing the cursor once, and the cursor
/// entering source row `y + 1` continues from where row `y` left it.
pub proof fn lemma_cursor_continuous_across_rows(y: int)
    ensures
        mask_row_cursor(4 * (y + 1)) == (mask_row_cursor(4 * y) + 4) % 8,
{
    let a = 4 * y;
    vstd::arithmetic::div_mod::lemma_fundamental_div_mod(a, 8);
    vstd::arithmetic::div_mod::lemma_mod_multiples_vanish(-(a / 8), a + 4, 8);
}

} // verus!
