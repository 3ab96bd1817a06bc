//! Shared view state: zoom, pan center, playback delay and the run flag,
//! with the auto-fit construction from a grid's bounding box.
use vstd::prelude::*;

verus! {

/// True exactly when `n` is a power of two.
pub open spec fn is_pow2(n: int) -> bool
    decreases n,
{
    if n <= 0 {
        false
    } else if n == 1 {
        true
    } else {
        n % 2 == 0 && is_pow2(n / 2)
    }
}

/// Doubling a power of two yields a power of two.
pub proof fn lemma_pow2_double(n: int)
    requires
        is_pow2(n),
    ensures
        is_pow2(2 * n),
{
    assert(is_pow2(2 * n)) by {
        assert((2 * n) / 2 == n);
    }
}

/// Two powers of two within a factor of two of each other are ordered:
/// `a < 2 * b` forces `a <= b`.
pub proof fn lemma_pow2_compare(a: int, b: int)
    requires
        is_pow2(a),
        is_pow2(b),
        a < 2 * b,
    ensures
        a <= b,
    decreases a,
{
    if a != 1 && b != 1 {
        assert(a / 2 < 2 * (b / 2));
        lemma_pow2_compare(a / 2, b / 2);
    }
}

/// The inclusive extent of live cells on both axes, as the engine
/// reports it.
pub struct BoundingBox {
    pub x_min: i64,
    pub y_min: i64,
    pub x_max: i64,
    pub y_max: i64,
}

impl BoundingBox {
    /// The corners are ordered.
    pub open spec fn wf(self) -> bool {
        self.x_min <= self.x_max && self.y_min <= self.y_max
    }

    /// Cells spanned horizontally, inclusive of both corners.
    pub open spec fn spec_width(self) -> int {
        self.x_max - self.x_min + 1
    }

    /// Cells spanned vertically, inclusive of both corners.
    pub open spec fn spec_height(self) -> int {
        self.y_max - self.y_min + 1
    }
}

/// Division by two that truncates toward zero, as the machine's signed
/// division does.
pub open spec fn half_toward_zero(v: int) -> int {
    if v >= 0 {
        v / 2
    } else {
        -((-v) / 2)
    }
}

/// A zoom level `scale` shows the whole box when the box's width fits in
/// `2 * output_width` world columns per screen column and its height in
/// `4 * output_height` world rows per screen row.
pub open spec fn fits(bbox_w: int, bbox_h: int, out_w: int, out_h: int, scale: int) -> bool {
    bbox_w <= 2 * out_w * scale && bbox_h <= 4 * out_h * scale
}

/// A power of two that a 64-bit value holds is at most 2^63.
pub proof fn lemma_pow2_le_u64_max(n: int)
    requires
        is_pow2(n),
        n <= 0xFFFF_FFFF_FFFF_FFFF,
    ensures
        n <= 0x8000_0000_0000_0000,
{
    assert(is_pow2(0x8000_0000_0000_0000)) by {
        reveal_with_fuel(is_pow2, 65);
    }
    lemma_pow2_compare(n, 0x8000_0000_0000_0000);
}

/// Halving a power of two above one yields a power of two.
pub proof fn lemma_pow2_halve(n: int)
    requires
        is_pow2(n),
        n > 1,
    ensures
        is_pow2(n / 2),
{
}

/// A bounding box that spans exactly the viewport-equivalent area is
/// shown at zoom 1: the auto-fit scale of a `2 * out_w` by `4 * out_h`
/// box is 1.
pub proof fn lemma_autofit_exact_span(out_w: int, out_h: int, scale: int)
    requires
        out_w >= 1,
        out_h >= 1,
        is_pow2(scale),
        fits(2 * out_w, 4 * out_h, out_w, out_h, scale),
        forall|q: int| is_pow2(q) && q < scale ==> !fits(2 * out_w, 4 * out_h, out_w, out_h, q),
    ensures
        scale == 1,
{
    assert(is_pow2(1)) by {
        reveal_with_fuel(is_pow2, 2);
    }
    assert(fits(2 * out_w, 4 * out_h, out_w, out_h, 1));
    if scale > 1 {
        assert(!fits(2 * out_w, 4 * out_h, out_w, out_h, 1));
        assert(false);
    }
}

/// Doubling the width of an exactly-fitting box, holding the output size
/// fixed, doubles the auto-fit scale from 1 to 2.
pub proof fn lemma_autofit_double_width(out_w: int, out_h: int, scale: int)
    requires
        out_w >= 1,
        out_h >= 1,
        is_pow2(scale),
        fits(4 * out_w, 4 * out_h, out_w, out_h, scale),
        forall|q: int| is_pow2(q) && q < scale ==> !fits(4 * out_w, 4 * out_h, out_w, out_h, q),
    ensures
        scale == 2,
{
    assert(is_pow2(1) && is_pow2(2)) by {
        reveal_with_fuel(is_pow2, 3);
    }
    assert(fits(4 * out_w, 4 * out_h, out_w, out_h, 2));
    assert(!fits(4 * out_w, 4 * out_h, out_w, out_h, 1));
    if scale > 2 {
        assert(!fits(4 * out_w, 4 * out_h, out_w, out_h, 2));
        assert(false);
    }
    if scale < 2 {
        assert(scale == 1);
        assert(false);
    }
}

/// Doubling the height of an exactly-fitting box, holding the output
/// size fixed, doubles the auto-fit scale from 1 to 2.
pub proof fn lemma_autofit_double_height(out_w: int, out_h: int, scale: int)
    requires
        out_w >= 1,
        out_h >= 1,
        is_pow2(scale),
        fits(2 * out_w, 8 * out_h, out_w, out_h, scale),
        forall|q: int| is_pow2(q) && q < scale ==> !fits(2 * out_w, 8 * out_h, out_w, out_h, q),
    ensures
        scale == 2,
{
    assert(is_pow2(1) && is_pow2(2)) by {
        reveal_with_fuel(is_pow2, 3);
    }
    assert(fits(2 * out_w, 8 * out_h, out_w, out_h, 2));
    assert(!fits(2 * out_w, 8 * out_h, out_w, out_h, 1));
    if scale > 2 {
        assert(!fits(2 * out_w, 8 * out_h, out_w, out_h, 2));
        assert(false);
    }
    if scale < 2 {
        assert(scale == 1);
        assert(false);
    }
}

/// The view/control state shared between the input path, the renderer
/// and the stepper. The engine's grid itself stays with its owner.
pub struct State {
    pub is_running: bool,
    pub scale: u64,
    pub center: (i64, i64),
    pub delay_millis: u64,
}

impl State {
    /// The zoom factor is always a power of two.
    pub open spec fn wf(self) -> bool {
        is_pow2(self.scale as int)
    }

    /// The smallest power-of-two zoom at which `bbox` fits a viewport of
    /// `out_w` by `out_h` screen cells.
    fn fit_scale(bbox_w: u128, bbox_h: u128, out_w: u64, out_h: u64) -> (scale: u64)
        requires
            1 <= bbox_w <= 0x1_0000_0000_0000_0000,
            1 <= bbox_h <= 0x1_0000_0000_0000_0000,
            1 <= out_w <= 0xFFFF_FFFF,
            1 <= out_h <= 0xFFFF_FFFF,
        ensures
            is_pow2(scale as int),
            fits(bbox_w as int, bbox_h as int, out_w as int, out_h as int, scale as int),
            forall|q: int|
                is_pow2(q) && q < scale as int ==> !fits(
                    bbox_w as int,
                    bbox_h as int,
                    out_w as int,
                    out_h as int,
                    q,
                ),
    {
        let mut scale: u64 = 1;
        loop
            invariant
                1 <= bbox_w <= 0x1_0000_0000_0000_0000,
                1 <= bbox_h <= 0x1_0000_0000_0000_0000,
                1 <= out_w <= 0xFFFF_FFFF,
                1 <= out_h <= 0xFFFF_FFFF,
                is_pow2(scale as int),
                scale <= 0x8000_0000_0000_0000u64,
                forall|q: int|
                    is_pow2(q) && q < scale as int ==> !fits(
                        bbox_w as int,
                        bbox_h as int,
                        out_w as int,
                        out_h as int,
                        q,
                    ),
            decreases 0x8000_0000_0000_0000u64 - scale,
        {
            proof {
                assert(2 * (out_w as int) * (scale as int) <= 2 * 0xFFFF_FFFF
                    * 0x8000_0000_0000_0000) by (nonlinear_arith)
                    requires
                        out_w <= 0xFFFF_FFFFu64,
                        scale <= 0x8000_0000_0000_0000u64,
                ;
                assert(4 * (out_h as int) * (scale as int) <= 4 * 0xFFFF_FFFF
                    * 0x8000_0000_0000_0000) by (nonlinear_arith)
                    requires
                        out_h <= 0xFFFF_FFFFu64,
                        scale <= 0x8000_0000_0000_0000u64,
                ;
            }
            let fit_w = bbox_w <= 2 * (out_w as u128) * (scale as u128);
            let fit_h = bbox_h <= 4 * (out_h as u128) * (scale as u128);
            if fit_w && fit_h {
                return scale;
            }
            proof {
                // At the widest zoom this loop can reach, everything fits,
                // so the loop condition has failed before that point.
                assert(2 * (out_w as int) * (0x8000_0000_0000_0000u64 as int) >= 0x1_0000_0000_0000_0000)
                    by (nonlinear_arith)
                    requires
                        out_w >= 1,
                ;
                assert(4 * (out_h as int) * (0x8000_0000_0000_0000u64 as int) >= 0x1_0000_0000_0000_0000)
                    by (nonlinear_arith)
                    requires
                        out_h >= 1,
                ;
                assert(scale < 0x8000_0000_0000_0000u64);
                assert(is_pow2(0x4000_0000_0000_0000)) by {
                    reveal_with_fuel(is_pow2, 64);
                }
                lemma_pow2_compare(scale as int, 0x4000_0000_0000_0000);
                lemma_pow2_double(scale as int);
                assert forall|q: int|
                    is_pow2(q) && q < 2 * (scale as int) implies !fits(
                    bbox_w as int,
                    bbox_h as int,
                    out_w as int,
                    out_h as int,
                    q,
                ) by {
                    lemma_pow2_compare(q, scale as int);
                }
            }
            scale = scale * 2;
        }
    }

    /// Builds the initial state: paused, a 32 ms step interval, and the
    /// view centered and zoomed so that the reported extent of the grid
    /// fits the given output size. An empty grid (no bounding box) gets
    /// center `(0, 0)` at scale 1.
    pub fn new_centered(bbox: Option<BoundingBox>, output_width: u64, output_height: u64) -> (s:
        State)
        requires
            1 <= output_width <= 0xFFFF_FFFF,
            1 <= output_height <= 0xFFFF_FFFF,
            bbox is Some ==> bbox->0.wf(),
        ensures
            s.wf(),
            !s.is_running,
            s.delay_millis == 32,
            bbox is None ==> s.center == (0i64, 0i64) && s.scale == 1,
            bbox is Some ==> {
                let b = bbox->0;
                &&& s.center.0 == half_toward_zero(b.x_min + b.x_max)
                &&& s.center.1 == half_toward_zero(b.y_min + b.y_max)
                &&& fits(
                    b.spec_width(),
                    b.spec_height(),
                    output_width as int,
                    output_height as int,
                    s.scale as int,
                )
                &&& forall|q: int|
                    is_pow2(q) && q < s.scale as int ==> !fits(
                        b.spec_width(),
                        b.spec_height(),
                        output_width as int,
                        output_height as int,
                        q,
                    )
            },
    {
        match bbox {
            None => State { is_running: false, scale: 1, center: (0, 0), delay_millis: 32 },
            Some(b) => {
                let width = (b.x_max as i128 - b.x_min as i128 + 1) as u128;
                let height = (b.y_max as i128 - b.y_min as i128 + 1) as u128;
                let scale = Self::fit_scale(width, height, output_width, output_height);
                let center_x = Self::midpoint(b.x_min, b.x_max);
                let center_y = Self::midpoint(b.y_min, b.y_max);
                State { is_running: false, scale, center: (center_x, center_y), delay_millis: 32 }
            },
        }
    }

    /// One zoom-in command: halves the zoom factor, stopping at 1:1.
    /// The power-of-two invariant is kept.
    pub fn zoom_in_scale(scale: u64) -> (r: u64)
        requires
            is_pow2(scale as int),
        ensures
            is_pow2(r as int),
            r == if scale > 1 {
                scale / 2
            } else {
                1u64
            },
    {
        if scale > 1 {
            proof {
                lemma_pow2_halve(scale as int);
            }
            scale / 2
        } else {
            1
        }
    }

    /// One zoom-out command: doubles the zoom factor, stopping where a
    /// wider factor would leave the 64-bit range. The power-of-two
    /// invariant is kept.
    pub fn zoom_out_scale(scale: u64) -> (r: u64)
        requires
            is_pow2(scale as int),
        ensures
            is_pow2(r as int),
            r == if scale < 0x4000_0000_0000_0000u64 {
                2 * scale as int
            } else {
                scale as int
            },
    {
        if scale < 0x4000_0000_0000_0000u64 {
            proof {
                lemma_pow2_double(scale as int);
            }
            2 * scale
        } else {
            scale
        }
    }

    /// One pan command: moves the center by a multiple of the current
    /// zoom on each axis, saturating at the edge of the signed 64-bit
    /// world instead of wrapping.
    pub fn pan_center(center: (i64, i64), dx: i64, dy: i64, scale: u64) -> (c: (i64, i64))
        requires
            is_pow2(scale as int),
        ensures
            c.0 == crate::quantize::clamp_i64(center.0 + dx * scale),
            c.1 == crate::quantize::clamp_i64(center.1 + dy * scale),
    {
        proof {
            lemma_pow2_le_u64_max(scale as int);
            assert(-0x8000_0000_0000_0000 * 0x8000_0000_0000_0000 <= (dx as int) * (scale as int)
                <= 0x8000_0000_0000_0000 * 0x8000_0000_0000_0000) by (nonlinear_arith)
                requires
                    -0x8000_0000_0000_0000 <= dx <= 0x7FFF_FFFF_FFFF_FFFFi64,
                    0 <= scale <= 0x8000_0000_0000_0000u64,
            ;
            assert(-0x8000_0000_0000_0000 * 0x8000_0000_0000_0000 <= (dy as int) * (scale as int)
                <= 0x8000_0000_0000_0000 * 0x8000_0000_0000_0000) by (nonlinear_arith)
                requires
                    -0x8000_0000_0000_0000 <= dy <= 0x7FFF_FFFF_FFFF_FFFFi64,
                    0 <= scale <= 0x8000_0000_0000_0000u64,
            ;
        }
        let new_x: i128 = (center.0 as i128) + (dx as i128) * (scale as i128);
        let new_y: i128 = (center.1 as i128) + (dy as i128) * (scale as i128);
        (crate::quantize::clamp_to_i64(new_x), crate::quantize::clamp_to_i64(new_y))
    }

    /// The midpoint of an ordered pair of coordinates, rounded toward
    /// zero as the machine's signed division rounds a sum-and-halve.
    fn midpoint(lo: i64, hi: i64) -> (mid: i64)
        requires
            lo <= hi,
        ensures
            mid == half_toward_zero(lo + hi),
    {
        let sum: i128 = lo as i128 + hi as i128;
        if sum >= 0 {
            ((sum as u128 / 2) as i128) as i64
        } else {
            (-(((-sum) as u128 / 2) as i128)) as i64
        }
    }
}

} // verus!
