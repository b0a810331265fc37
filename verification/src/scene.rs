//! The rules by which the field of small spheres is laid out.
//!
//! The field is a grid of cells around the origin. In each cell one small
//! sphere is placed at a random spot, unless it would crowd the large sphere
//! that stands in front; a random draw picks its material. The draws and the
//! distances are the caller's; the rules are here.

use crate::double::{lemma_scaled_magnitude_increases, lemma_scaled_magnitude_sign, Double};
use vstd::prelude::*;

verus! {

/// Cells run from `-GRID_REACH` up to, not including, `GRID_REACH`, both ways.
pub const GRID_REACH: i32 = 11;

/// The number of cells of the grid.
pub const GRID_CELLS: u32 = 484;

/// The pattern of the double nearest to 0.33.
pub const DIFFUSE_SHARE_BITS: u64 = 0x3fd5_1eb8_51eb_851f;

/// The pattern of the double nearest to 0.66.
pub const METAL_SHARE_BITS: u64 = 0x3fe5_1eb8_51eb_851f;

/// The pattern of the double nearest to 0.9.
pub const CLEARANCE_BITS: u64 = 0x3fec_cccc_cccc_cccd;

/// The kind of material that a small sphere is given.
#[derive(Copy, Clone, Debug, PartialEq, Eq, Structural)]
pub enum Choice {
    Diffuse,
    Metal,
    Dielectric,
}

/// The kind that a draw from `[0, 1)` picks: matte below 0.33, metal from
/// there to below 0.66, glass for the rest.
pub open spec fn choice_spec(draw: Double) -> Choice {
    if draw.lt_spec(Double { bits: DIFFUSE_SHARE_BITS }) {
        Choice::Diffuse
    } else if draw.lt_spec(Double { bits: METAL_SHARE_BITS }) {
        Choice::Metal
    } else {
        Choice::Dielectric
    }
}

/// The cell with the given number: cells are counted along the second
/// coordinate first.
pub open spec fn cell_spec(k: int) -> (int, int) {
    (k / (2 * GRID_REACH) - GRID_REACH, k % (2 * GRID_REACH) - GRID_REACH)
}

/// Picks the kind of material for a small sphere from a draw in `[0, 1)`.
pub fn choose_material(draw: Double) -> (choice: Choice)
    ensures
        choice == choice_spec(draw),
{
    if draw.lt(Double::from_bits(DIFFUSE_SHARE_BITS)) {
        Choice::Diffuse
    } else if draw.lt(Double::from_bits(METAL_SHARE_BITS)) {
        Choice::Metal
    } else {
        Choice::Dielectric
    }
}

/// Whether a small sphere may stand where it was drawn: the distance from
/// its centre to the point `(4, 0.2, 0)` must be above 0.9.
pub fn keeps_clear(distance: Double) -> (clear: bool)
    ensures
        clear == distance.gt_spec(Double { bits: CLEARANCE_BITS }),
{
    distance.gt(Double::from_bits(CLEARANCE_BITS))
}

/// The two coordinates of the cell with number `k`, for `k` below
/// `GRID_CELLS`; `None` beyond the last cell.
pub fn grid_cell(k: u32) -> (cell: Option<(i32, i32)>)
    ensures
        cell.is_some() == (k < GRID_CELLS),
        cell matches Some(at) ==> (at.0 as int, at.1 as int) == cell_spec(k as int)
            && -GRID_REACH <= at.0 < GRID_REACH && -GRID_REACH <= at.1 < GRID_REACH,
{
    if k >= GRID_CELLS {
        return None;
    }
    let a: i32 = (k / 22) as i32 - GRID_REACH;
    let b: i32 = (k % 22) as i32 - GRID_REACH;
    Some((a, b))
}

/// The shares are in order: a draw that picks the matte kind is also below
/// the share of metal, so the three kinds split `[0, 1)` into three parts.
pub proof fn lemma_shares_in_order()
    ensures
        (Double { bits: 0 }).lt_spec(Double { bits: DIFFUSE_SHARE_BITS }),
        (Double { bits: DIFFUSE_SHARE_BITS }).lt_spec(Double { bits: METAL_SHARE_BITS }),
        (Double { bits: METAL_SHARE_BITS }).lt_spec(Double { bits: crate::double::ONE_BITS }),
{
    lemma_scaled_magnitude_sign(0);
    lemma_scaled_magnitude_increases(0, DIFFUSE_SHARE_BITS as int);
    lemma_scaled_magnitude_increases(DIFFUSE_SHARE_BITS as int, METAL_SHARE_BITS as int);
    lemma_scaled_magnitude_increases(METAL_SHARE_BITS as int, crate::double::ONE_BITS as int);
}

/// Every cell of the grid has exactly one number.
pub proof fn lemma_grid_covers(a: int, b: int)
    requires
        -GRID_REACH <= a < GRID_REACH,
        -GRID_REACH <= b < GRID_REACH,
    ensures
        0 <= (a + GRID_REACH) * (2 * GRID_REACH) + (b + GRID_REACH) < GRID_CELLS,
        cell_spec((a + GRID_REACH) * (2 * GRID_REACH) + (b + GRID_REACH)) == (a, b),
{
    let k = (a + GRID_REACH) * (2 * GRID_REACH) + (b + GRID_REACH);
    assert(k == (a + 11) * 22 + (b + 11));
    assert(0 <= k < 484) by (nonlinear_arith)
        requires
            k == (a + 11) * 22 + (b + 11),
            0 <= a + 11 < 22,
            0 <= b + 11 < 22,
    ;
    vstd::arithmetic::div_mod::lemma_fundamental_div_mod_converse(
        k,
        2 * GRID_REACH,
        a + GRID_REACH,
        b + GRID_REACH,
    );
}

} // verus!
