//! The quantizer: maps one screen cell to its eight sub-cell sample
//! windows in world space at the current zoom.
//!
//! A screen cell at `(x, y)` in a `width` by `height` viewport covers a
//! `2 * scale` wide and `4 * scale` tall block of world cells, anchored so
//! that the middle screen cell sits on the view's center. The block is
//! split into eight `scale` by `scale` windows, two across and four down,
//! ordered row by row: `(0,0), (1,0), (0,1), (1,1), (0,2), (1,2), (0,3),
//! (1,3)`.
use vstd::prelude::*;

use crate::state::BoundingBox;

verus! {

/// World column of the cell block's left edge, before clamping.
pub open spec fn cell_x_offset(x: int, width: int, scale: int, center_x: int) -> int {
    2 * (x - width / 2) * scale + center_x
}

/// World row of the cell block's top edge, before clamping.
pub open spec fn cell_y_offset(y: int, height: int, scale: int, center_y: int) -> int {
    4 * (y - height / 2) * scale + center_y
}

/// Left edge of sub-cell `i` of a block anchored at `x_off`.
pub open spec fn subcell_x_min(x_off: int, scale: int, i: int) -> int {
    x_off + (i % 2) * scale
}

/// Top edge of sub-cell `i` of a block anchored at `y_off`.
pub open spec fn subcell_y_min(y_off: int, scale: int, i: int) -> int {
    y_off + (i / 2) * scale
}

/// Whether world cell `(px, py)` lies in sub-cell `i` of the block
/// anchored at `(x_off, y_off)`.
pub open spec fn subcell_contains(
    x_off: int,
    y_off: int,
    scale: int,
    i: int,
    px: int,
    py: int,
) -> bool {
    &&& subcell_x_min(x_off, scale, i) <= px < subcell_x_min(x_off, scale, i) + scale
    &&& subcell_y_min(y_off, scale, i) <= py < subcell_y_min(y_off, scale, i) + scale
}

/// The eight sub-cell windows are pairwise disjoint and together cover
/// exactly the cell's `2 * scale` by `4 * scale` world block.
pub proof fn lemma_subcells_tile(x_off: int, y_off: int, scale: int, px: int, py: int)
    requires
        scale >= 1,
    ensures
        (exists|i: int| 0 <= i < 8 && subcell_contains(x_off, y_off, scale, i, px, py)) <==> (x_off
            <= px < x_off + 2 * scale && y_off <= py < y_off + 4 * scale),
        forall|i: int, j: int|
            0 <= i < 8 && 0 <= j < 8 && i != j && subcell_contains(x_off, y_off, scale, i, px, py)
                ==> !subcell_contains(x_off, y_off, scale, j, px, py),
{
    if x_off <= px < x_off + 2 * scale && y_off <= py < y_off + 4 * scale {
        let col = (px - x_off) / scale;
        let row = (py - y_off) / scale;
        vstd::arithmetic::div_mod::lemma_fundamental_div_mod(px - x_off, scale);
        vstd::arithmetic::div_mod::lemma_fundamental_div_mod(py - y_off, scale);
        vstd::arithmetic::div_mod::lemma_mod_bound(px - x_off, scale);
        vstd::arithmetic::div_mod::lemma_mod_bound(py - y_off, scale);
        assert(0 <= col < 2 && 0 <= row < 4) by (nonlinear_arith)
            requires
                scale >= 1,
                0 <= px - x_off < 2 * scale,
                0 <= py - y_off < 4 * scale,
                px - x_off == scale * col + (px - x_off) % scale,
                py - y_off == scale * row + (py - y_off) % scale,
                0 <= (px - x_off) % scale < scale,
                0 <= (py - y_off) % scale < scale,
        ;
        let i = 2 * row + col;
        assert(i % 2 == col && i / 2 == row);
        assert(subcell_contains(x_off, y_off, scale, i, px, py));
    }
    assert forall|i: int|
        0 <= i < 8 && subcell_contains(x_off, y_off, scale, i, px, py) implies x_off <= px < x_off
        + 2 * scale && y_off <= py < y_off + 4 * scale by {
        let c = i % 2;
        let r = i / 2;
        assert(0 <= c * scale && c * scale + scale <= 2 * scale) by (nonlinear_arith)
            requires
                0 <= c <= 1,
                scale >= 1,
        ;
        assert(0 <= r * scale && r * scale + scale <= 4 * scale) by (nonlinear_arith)
            requires
                0 <= r <= 3,
                scale >= 1,
        ;
    }
    assert forall|i: int, j: int|
        0 <= i < 8 && 0 <= j < 8 && i != j && subcell_contains(
            x_off,
            y_off,
            scale,
            i,
            px,
            py,
        ) implies !subcell_contains(x_off, y_off, scale, j, px, py) by {
        if subcell_contains(x_off, y_off, scale, j, px, py) {
            let lo = if i % 2 <= j % 2 { i % 2 } else { j % 2 };
            let hi = if i % 2 <= j % 2 { j % 2 } else { i % 2 };
            let lo_r = if i / 2 <= j / 2 { i / 2 } else { j / 2 };
            let hi_r = if i / 2 <= j / 2 { j / 2 } else { i / 2 };
            if i % 2 != j % 2 {
                // The two columns are a full window apart.
                assert(lo * scale + scale <= hi * scale) by (nonlinear_arith)
                    requires
                        lo < hi,
                        scale >= 1,
                ;
                assert(false);
            } else {
                assert(i / 2 != j / 2);
                assert(lo_r * scale + scale <= hi_r * scale) by (nonlinear_arith)
                    requires
                        lo_r < hi_r,
                        scale >= 1,
                ;
                assert(false);
            }
        }
    }
}

/// Whether any cell of `cells` is alive inside sub-cell `i` of the
/// block anchored at `(x_off, y_off)`: the existential liveness test the
/// renderer asks of the engine, one query per sub-cell.
pub open spec fn subcell_live(
    cells: Set<(int, int)>,
    x_off: int,
    y_off: int,
    scale: int,
    i: int,
) -> bool {
    exists|p: (int, int)| cells.contains(p) && subcell_contains(x_off, y_off, scale, i, p.0, p.1)
}

/// The nearest value representable in a signed 64-bit coordinate.
pub open spec fn clamp_i64(v: int) -> int {
    if v < i64::MIN as int {
        i64::MIN as int
    } else if v > i64::MAX as int {
        i64::MAX as int
    } else {
        v
    }
}

pub fn clamp_to_i64(v: i128) -> (r: i64)
    ensures
        r as int == clamp_i64(v as int),
{
    if v < i64::MIN as i128 {
        i64::MIN
    } else if v > i64::MAX as i128 {
        i64::MAX
    } else {
        v as i64
    }
}

/// The eight world-space query windows of the screen cell at `(x, y)`,
/// in the fixed sub-cell order. Coordinates that would leave the signed
/// 64-bit world range are clamped to its edge, saturating the view at
/// extreme pan or zoom.
pub fn subcell_regions(
    x: usize,
    y: usize,
    width: usize,
    height: usize,
    scale: u64,
    center: (i64, i64),
) -> (regions: Vec<BoundingBox>)
    requires
        x < width,
        y < height,
        width <= 0xFFFF_FFFF,
        height <= 0xFFFF_FFFF,
        1 <= scale,
    ensures
        regions.len() == 8,
        forall|i: int|
            0 <= i < 8 ==> {
                let xo = cell_x_offset(x as int, width as int, scale as int, center.0 as int);
                let yo = cell_y_offset(y as int, height as int, scale as int, center.1 as int);
                &&& (#[trigger] regions[i]).x_min == clamp_i64(subcell_x_min(xo, scale as int, i))
                &&& regions[i].x_max == clamp_i64(subcell_x_min(xo, scale as int, i) + scale - 1)
                &&& regions[i].y_min == clamp_i64(subcell_y_min(yo, scale as int, i))
                &&& regions[i].y_max == clamp_i64(subcell_y_min(yo, scale as int, i) + scale - 1)
            },
{
    proof {
        assert(2 * ((x as int) - (width as int) / 2) * (scale as int) <= 2 * 0xFFFF_FFFF
            * 0xFFFF_FFFF_FFFF_FFFF && 2 * ((x as int) - (width as int) / 2) * (scale as int) >= -2
            * 0xFFFF_FFFF * 0xFFFF_FFFF_FFFF_FFFF) by (nonlinear_arith)
            requires
                x < width,
                width <= 0xFFFF_FFFF,
                x >= 0,
                1 <= scale <= 0xFFFF_FFFF_FFFF_FFFFu64,
        ;
        assert(4 * ((y as int) - (height as int) / 2) * (scale as int) <= 4 * 0xFFFF_FFFF
            * 0xFFFF_FFFF_FFFF_FFFF && 4 * ((y as int) - (height as int) / 2) * (scale as int) >= -4
            * 0xFFFF_FFFF * 0xFFFF_FFFF_FFFF_FFFF) by (nonlinear_arith)
            requires
                y < height,
                height <= 0xFFFF_FFFF,
                y >= 0,
                1 <= scale <= 0xFFFF_FFFF_FFFF_FFFFu64,
        ;
    }
    let xo: i128 = 2 * ((x as i128) - ((width / 2) as i128)) * (scale as i128) + (center.0 as i128);
    let yo: i128 = 4 * ((y as i128) - ((height / 2) as i128)) * (scale as i128) + (
    center.1 as i128);
    let mut regions: Vec<BoundingBox> = Vec::new();
    let mut i: usize = 0;
    while i < 8
        invariant
            i <= 8,
            regions.len() == i,
            1 <= scale,
            xo == cell_x_offset(x as int, width as int, scale as int, center.0 as int),
            yo == cell_y_offset(y as int, height as int, scale as int, center.1 as int),
            -0x4_0000_0000_0000_0000_0000_0000 <= xo <= 0x4_0000_0000_0000_0000_0000_0000,
            -0x4_0000_0000_0000_0000_0000_0000 <= yo <= 0x4_0000_0000_0000_0000_0000_0000,
            forall|k: int|
                0 <= k < i ==> {
                    let xoff = cell_x_offset(x as int, width as int, scale as int, center.0 as int);
                    let yoff = cell_y_offset(
                        y as int,
                        height as int,
                        scale as int,
                        center.1 as int,
                    );
                    &&& (#[trigger] regions[k]).x_min == clamp_i64(
                        subcell_x_min(xoff, scale as int, k),
                    )
                    &&& regions[k].x_max == clamp_i64(
                        subcell_x_min(xoff, scale as int, k) + scale - 1,
                    )
                    &&& regions[k].y_min == clamp_i64(subcell_y_min(yoff, scale as int, k))
                    &&& regions[k].y_max == clamp_i64(
                        subcell_y_min(yoff, scale as int, k) + scale - 1,
                    )
                },
        decreases 8 - i,
    {
        let col: i128 = (i % 2) as i128;
        let row: i128 = (i / 2) as i128;
        proof {
            assert(0 <= (col as int) * (scale as int) <= 0xFFFF_FFFF_FFFF_FFFF && 0 <= (row as int)
                * (scale as int) <= 3 * 0xFFFF_FFFF_FFFF_FFFF) by (nonlinear_arith)
                requires
                    0 <= col <= 1,
                    0 <= row <= 3,
                    1 <= scale <= 0xFFFF_FFFF_FFFF_FFFFu64,
            ;
        }
        let lo_x: i128 = xo + col * (scale as i128);
        let lo_y: i128 = yo + row * (scale as i128);
        let region = BoundingBox {
            x_min: clamp_to_i64(lo_x),
            y_min: clamp_to_i64(lo_y),
            x_max: clamp_to_i64(lo_x + (scale as i128 - 1)),
            y_max: clamp_to_i64(lo_y + (scale as i128 - 1)),
        };
        regions.push(region);
        i = i + 1;
    }
    regions
}

} // verus!
