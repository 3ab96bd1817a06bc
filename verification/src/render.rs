//! The renderer: walks the visible screen area once, cell by cell, and
//! turns each cell's eight sub-cell query results into its glyph.
//!
//! The engine's existential liveness queries happen at the caller, which
//! hands the answers over flattened row by row: cell `(x, y)` owns the
//! eight flags at positions `8 * (y * width + x)` up to and excluding
//! `8 * (y * width + x) + 8`, in the fixed sub-cell order.
use vstd::prelude::*;

use crate::glyph::{braille_glyph, glyph_for, spec_glyph};
use crate::quantize::{cell_x_offset, cell_y_offset, subcell_live};

verus! {

/// The eight flags belonging to the screen cell at `(x, y)`.
pub open spec fn cell_bits(bits: Seq<bool>, width: int, x: int, y: int) -> Seq<bool> {
    bits.subrange(8 * (y * width + x), 8 * (y * width + x) + 8)
}

/// Renders the whole viewport from the flattened sub-cell results: one
/// row of characters per screen row, each cell showing the glyph its
/// eight flags select. A degenerate viewport (zero width or height)
/// renders nothing.
pub fn render_from_bits(width: usize, height: usize, bits: &Vec<bool>) -> (rows: Vec<Vec<char>>)
    requires
        width <= 0xFFFF_FFFF,
        height <= 0xFFFF_FFFF,
        bits@.len() == width * height * 8,
    ensures
        rows@.len() == height,
        forall|y: int| 0 <= y < height ==> (#[trigger] rows@[y])@.len() == width,
        forall|x: int, y: int|
            0 <= x < width && 0 <= y < height ==> rows@[y]@[x] == spec_glyph(
                cell_bits(bits@, width as int, x, y),
            ),
{
    let total: usize = bits.len();
    let mut rows: Vec<Vec<char>> = Vec::new();
    let mut y: usize = 0;
    while y < height
        invariant
            y <= height,
            width <= 0xFFFF_FFFF,
            height <= 0xFFFF_FFFF,
            bits@.len() == width * height * 8,
            bits@.len() <= usize::MAX,
            rows@.len() == y,
            forall|yy: int| 0 <= yy < y ==> (#[trigger] rows@[yy])@.len() == width,
            forall|xx: int, yy: int|
                0 <= xx < width && 0 <= yy < y ==> rows@[yy]@[xx] == spec_glyph(
                    cell_bits(bits@, width as int, xx, yy),
                ),
        decreases height - y,
    {
        let mut row: Vec<char> = Vec::new();
        let mut x: usize = 0;
        while x < width
            invariant
                x <= width,
                y < height,
                width <= 0xFFFF_FFFF,
                height <= 0xFFFF_FFFF,
                bits@.len() == width * height * 8,
                bits@.len() <= usize::MAX,
                row@.len() == x,
                forall|xx: int|
                    0 <= xx < x ==> row@[xx] == spec_glyph(cell_bits(bits@, width as int, xx, y as int)),
            decreases width - x,
        {
            proof {
                assert((y * width + x) * 8 + 8 <= width * height * 8 && 0 <= y * width + x && y
                    * width + x < width * height && width * height <= width * height * 8)
                    by (nonlinear_arith)
                    requires
                        0 <= x < width,
                        0 <= y < height,
                ;
            }
            let base: usize = (y * width + x) * 8;
            let cell: [bool; 8] = [
                bits[base],
                bits[base + 1],
                bits[base + 2],
                bits[base + 3],
                bits[base + 4],
                bits[base + 5],
                bits[base + 6],
                bits[base + 7],
            ];
            let glyph = glyph_for(&cell);
            proof {
                assert(cell_bits(bits@, width as int, x as int, y as int) =~= cell@);
            }
            row.push(glyph);
            x = x + 1;
        }
        rows.push(row);
        y = y + 1;
    }
    rows
}

/// With every sub-cell flag clear, as over an entirely empty grid, every
/// screen cell shows the all-dead glyph, whatever the viewport, zoom or
/// center that produced the queries.
pub proof fn lemma_empty_render_uniform(bits: Seq<bool>, width: int, x: int, y: int)
    requires
        0 <= x < width,
        0 <= y,
        bits.len() >= 8 * (y * width + x) + 8,
        forall|i: int| 0 <= i < bits.len() ==> !bits[i],
    ensures
        spec_glyph(cell_bits(bits, width, x, y)) == spec_glyph(Seq::new(8, |i: int| false)),
{
    assert(0 <= y * width + x) by (nonlinear_arith)
        requires
            0 <= x < width,
            0 <= y,
    ;
    let cb = cell_bits(bits, width, x, y);
    let dead = Seq::new(8, |i: int| false);
    assert(forall|i: int| 0 <= i < 8 ==> cb[i] == dead[i]);
    crate::glyph::lemma_glyph_pure(cb, dead);
}

/// The character owed to the screen cell at `(x, y)`: the glyph picked
/// by the eight existential liveness tests over the cell's sub-cell
/// windows. This is what a renderer over the grid `cells` shows at that
/// cell once the engine answers its queries truthfully.
pub open spec fn cell_char(
    cells: Set<(int, int)>,
    x: int,
    y: int,
    width: int,
    height: int,
    scale: int,
    center_x: int,
    center_y: int,
) -> char {
    let xo = cell_x_offset(x, width, scale, center_x);
    let yo = cell_y_offset(y, height, scale, center_y);
    braille_glyph(
        subcell_live(cells, xo, yo, scale, 0),
        subcell_live(cells, xo, yo, scale, 1),
        subcell_live(cells, xo, yo, scale, 2),
        subcell_live(cells, xo, yo, scale, 3),
        subcell_live(cells, xo, yo, scale, 4),
        subcell_live(cells, xo, yo, scale, 5),
        subcell_live(cells, xo, yo, scale, 6),
        subcell_live(cells, xo, yo, scale, 7),
    )
}

/// An entirely empty grid owes every screen cell the all-dead glyph,
/// whatever the scale, center, viewport size or position.
pub proof fn lemma_empty_grid_all_dead(
    x: int,
    y: int,
    width: int,
    height: int,
    scale: int,
    center_x: int,
    center_y: int,
)
    ensures
        cell_char(Set::empty(), x, y, width, height, scale, center_x, center_y) == spec_glyph(
            Seq::new(8, |i: int| false),
        ),
{
    let xo = cell_x_offset(x, width, scale, center_x);
    let yo = cell_y_offset(y, height, scale, center_y);
    assert(forall|i: int| !subcell_live(Set::empty(), xo, yo, scale, i));
}

/// Whether `bits` answers every sub-cell query truthfully for the grid
/// `cells`: position `8 * (y * width + x) + i` holds the existential
/// liveness of sub-cell `i` of screen cell `(x, y)`.
pub open spec fn bits_match_grid(
    bits: Seq<bool>,
    cells: Set<(int, int)>,
    width: int,
    height: int,
    scale: int,
    center_x: int,
    center_y: int,
) -> bool {
    forall|x: int, y: int, i: int|
        0 <= x < width && 0 <= y < height && 0 <= i < 8 ==> #[trigger] bits[8 * (y * width + x)
            + i] == subcell_live(
            cells,
            cell_x_offset(x, width, scale, center_x),
            cell_y_offset(y, height, scale, center_y),
            scale,
            i,
        )
}

/// Renderer correctness: when the engine's answers are truthful, every
/// screen cell of the rendered grid shows exactly the character the
/// grid owes it.
pub proof fn lemma_render_matches_grid(
    bits: Seq<bool>,
    cells: Set<(int, int)>,
    width: int,
    height: int,
    scale: int,
    center_x: int,
    center_y: int,
    x: int,
    y: int,
)
    requires
        0 <= x < width,
        0 <= y < height,
        bits.len() == width * height * 8,
        bits_match_grid(bits, cells, width, height, scale, center_x, center_y),
    ensures
        spec_glyph(cell_bits(bits, width, x, y)) == cell_char(
            cells,
            x,
            y,
            width,
            height,
            scale,
            center_x,
            center_y,
        ),
{
    assert((y * width + x) * 8 + 8 <= width * height * 8 && 0 <= y * width + x)
        by (nonlinear_arith)
        requires
            0 <= x < width,
            0 <= y < height,
    ;
    let cb = cell_bits(bits, width, x, y);
    let xo = cell_x_offset(x, width, scale, center_x);
    let yo = cell_y_offset(y, height, scale, center_y);
    assert forall|i: int| 0 <= i < 8 implies cb[i] == subcell_live(cells, xo, yo, scale, i) by {
        assert(cb[i] == bits[8 * (y * width + x) + i]);
    }
}

/// The spelled-out scene: live cells at world positions (0, 0) and
/// (1, 0) seen at scale 1, center (0, 0), in a one-by-one viewport light
/// the first two sub-cells and no other.
pub proof fn lemma_two_cell_scene()
    ensures
        cell_char(
            Set::empty().insert(((0int, 0int))).insert(((1int, 0int))),
            0,
            0,
            1,
            1,
            1,
            0,
            0,
        ) == braille_glyph(true, true, false, false, false, false, false, false),
{
    let cells = Set::empty().insert(((0int, 0int))).insert(((1int, 0int)));
    let xo = cell_x_offset(0, 1, 1, 0);
    let yo = cell_y_offset(0, 1, 1, 0);
    assert(xo == 0 && yo == 0);
    assert(subcell_live(cells, 0, 0, 1, 0)) by {
        assert(cells.contains((0int, 0int)));
        assert(crate::quantize::subcell_contains(0, 0, 1, 0, 0, 0));
    }
    assert(subcell_live(cells, 0, 0, 1, 1)) by {
        assert(cells.contains((1int, 0int)));
        assert(crate::quantize::subcell_contains(0, 0, 1, 1, 1, 0));
    }
    assert forall|i: int| 2 <= i < 8 implies !subcell_live(cells, 0, 0, 1, i) by {
        assert(forall|p: (int, int)|
            cells.contains(p) ==> p == (0int, 0int) || p == (1int, 0int));
        assert(forall|p: (int, int)|
            cells.contains(p) ==> !crate::quantize::subcell_contains(0, 0, 1, i, p.0, p.1));
    }
}

} // verus!
