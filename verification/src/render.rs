//! The exact integer core of the rendering pipeline: nearest-neighbor
//! background compositing, stride sampling of the vector field, and the
//! per-regime drawing policy (draw threshold, high-speed boost, arrowhead
//! size).
//!
//! The drawing backend itself (canvas, line primitive, encoding) is an
//! outside capability; this module decides, exactly, what is drawn where.

use vstd::prelude::*;

use vstd::arithmetic::div_mod::lemma_div_pos_is_pos;
use vstd::arithmetic::div_mod::lemma_multiply_divide_lt;

use crate::types::RegimeType;
use crate::types::scale_hundredths_spec;

verus! {

/// One RGBA pixel of the decoded background raster. Alpha is a binary
/// draw/skip test during compositing, never blended.
#[derive(Debug, Copy, Clone, PartialEq, Eq, Structural)]
pub struct Rgba {
    pub red: u8,
    pub green: u8,
    pub blue: u8,
    pub alpha: u8,
}

/// The rows of the decoded background raster: `h` rows of `w` pixels,
/// row 0 at the top of the source image.
pub open spec fn raster_wf(img: Seq<Vec<Rgba>>) -> bool {
    &&& img.len() >= 1
    &&& img[0]@.len() >= 1
    &&& forall|i: int| 0 <= i < img.len() ==> #[trigger] img[i]@.len() == img[0]@.len()
}

/// Nearest-neighbor source index for destination index `dst`, scaling a
/// source dimension `src_dim` onto a plot dimension `plot_dim`.
pub open spec fn src_index(dst: int, src_dim: int, plot_dim: int) -> int {
    (dst * src_dim) / plot_dim
}

/// Source row for destination row `dst_y`: the vertical scaling is
/// inverted, because the source raster's row 0 is its top while the
/// plot's row 0 is its bottom.
pub open spec fn src_row_index(dst_y: int, src_h: int, plot_h: int) -> int {
    src_h - 1 - src_index(dst_y, src_h, plot_h)
}

/// The color the background compositing paints at destination pixel
/// `(dst_x, dst_y)` of the plotting rectangle, if any: the nearest
/// source pixel's color where that pixel is not fully transparent,
/// nothing where it is.
pub open spec fn composite_pixel_spec(
    img: Seq<Vec<Rgba>>,
    dst_x: int,
    dst_y: int,
    plot_w: int,
    plot_h: int,
) -> Option<(u8, u8, u8)> {
    let p = img[src_row_index(dst_y, img.len() as int, plot_h)]@[src_index(
        dst_x,
        img[0]@.len() as int,
        plot_w,
    )];
    if p.alpha > 0 {
        Some((p.red, p.green, p.blue))
    } else {
        None
    }
}

/// Executable form of `composite_pixel_spec`.
pub fn composite_pixel(
    img: &Vec<Vec<Rgba>>,
    dst_x: usize,
    dst_y: usize,
    plot_w: usize,
    plot_h: usize,
) -> (r: Option<(u8, u8, u8)>)
    requires
        raster_wf(img@),
        img@.len() <= 0xFFFF_FFFF,
        img@[0]@.len() <= 0xFFFF_FFFF,
        plot_w <= 0xFFFF_FFFF,
        plot_h <= 0xFFFF_FFFF,
        dst_x < plot_w,
        dst_y < plot_h,
    ensures
        r == composite_pixel_spec(img@, dst_x as int, dst_y as int, plot_w as int, plot_h as int),
{
    let img_h = img.len();
    let img_w = img[0].len();
    proof {
        assert((dst_x as int) * (img_w as int) < (plot_w as int) * (img_w as int))
            by (nonlinear_arith)
            requires
                0 <= dst_x < plot_w,
                0 < img_w,
        ;
        lemma_multiply_divide_lt(
            (dst_x as int) * (img_w as int),
            plot_w as int,
            img_w as int,
        );
        lemma_div_pos_is_pos((dst_x as int) * (img_w as int), plot_w as int);
        assert((dst_x as int) * (img_w as int) >= 0) by (nonlinear_arith)
            requires
                dst_x >= 0,
                img_w >= 0,
        ;
        assert((dst_y as int) * (img_h as int) < (plot_h as int) * (img_h as int))
            by (nonlinear_arith)
            requires
                0 <= dst_y < plot_h,
                0 < img_h,
        ;
        lemma_multiply_divide_lt(
            (dst_y as int) * (img_h as int),
            plot_h as int,
            img_h as int,
        );
        lemma_div_pos_is_pos((dst_y as int) * (img_h as int), plot_h as int);
        assert((dst_y as int) * (img_h as int) >= 0) by (nonlinear_arith)
            requires
                dst_y >= 0,
                img_h >= 0,
        ;
        assert((dst_x as int) * (img_w as int) <= 0xFFFF_FFFF * 0xFFFF_FFFF)
            by (nonlinear_arith)
            requires
                0 <= dst_x <= 0xFFFF_FFFF,
                0 <= img_w <= 0xFFFF_FFFF,
        ;
        assert((dst_y as int) * (img_h as int) <= 0xFFFF_FFFF * 0xFFFF_FFFF)
            by (nonlinear_arith)
            requires
                0 <= dst_y <= 0xFFFF_FFFF,
                0 <= img_h <= 0xFFFF_FFFF,
        ;
    }
    let sx: usize = ((dst_x as u64) * (img_w as u64) / (plot_w as u64)) as usize;
    let sy_scaled: usize = ((dst_y as u64) * (img_h as u64) / (plot_h as u64)) as usize;
    let sy: usize = img_h - 1 - sy_scaled;
    let row: &Vec<Rgba> = &img[sy];
    assert(row@.len() == img@[0]@.len());
    let p: Rgba = row[sx];
    if p.alpha > 0 {
        Some((p.red, p.green, p.blue))
    } else {
        None
    }
}

/// One painted destination pixel of the background compositing pass.
#[derive(Debug, Copy, Clone, PartialEq, Eq, Structural)]
pub struct PaintOp {
    pub dst_x: usize,
    pub dst_y: usize,
    pub red: u8,
    pub green: u8,
    pub blue: u8,
}

/// `op` paints what the compositing rule gives at its own coordinates.
pub open spec fn op_matches(
    op: PaintOp,
    img: Seq<Vec<Rgba>>,
    plot_w: int,
    plot_h: int,
) -> bool {
    composite_pixel_spec(img, op.dst_x as int, op.dst_y as int, plot_w, plot_h) == Some(
        (op.red, op.green, op.blue),
    )
}

/// Every op of the plan paints inside the plot rectangle, with the color
/// the compositing rule gives at its coordinates.
pub open spec fn plan_sound(r: Seq<PaintOp>, img: Seq<Vec<Rgba>>, plot_w: int, plot_h: int) -> bool {
    forall|k: int|
        0 <= k < r.len() ==> #[trigger] r[k].dst_x < plot_w && r[k].dst_y < plot_h
            && op_matches(r[k], img, plot_w, plot_h)
}

/// Every destination pixel the compositing rule paints appears in the
/// plan.
pub open spec fn plan_complete(
    r: Seq<PaintOp>,
    img: Seq<Vec<Rgba>>,
    plot_w: int,
    plot_h: int,
) -> bool {
    forall|x: int, y: int|
        0 <= x < plot_w && 0 <= y < plot_h && composite_pixel_spec(img, x, y, plot_w, plot_h)
            is Some ==> exists|k: int|
            0 <= k < r.len() && #[trigger] r[k].dst_x == x && r[k].dst_y == y
}

/// The plan is strictly row-major: rows in order, each row left to
/// right, no pixel twice.
pub open spec fn plan_sorted(r: Seq<PaintOp>) -> bool {
    forall|k1: int, k2: int|
        0 <= k1 < k2 < r.len() ==> #[trigger] r[k1].dst_y < #[trigger] r[k2].dst_y || (r[k1].dst_y
            == r[k2].dst_y && r[k1].dst_x < r[k2].dst_x)
}

/// The whole background compositing pass over a `plot_w` x `plot_h`
/// plotting rectangle: exactly the destination pixels whose nearest
/// source pixel is not fully transparent, each with that source pixel's
/// color, in row-major order (rows bottom-up in plot terms, each row
/// left to right) without repetition.
pub fn composite_plan(
    img: &Vec<Vec<Rgba>>,
    plot_w: usize,
    plot_h: usize,
) -> (r: Vec<PaintOp>)
    requires
        raster_wf(img@),
        img@.len() <= 0xFFFF_FFFF,
        img@[0]@.len() <= 0xFFFF_FFFF,
        1 <= plot_w <= 0xFFFF_FFFF,
        1 <= plot_h <= 0xFFFF_FFFF,
    ensures
        plan_sound(r@, img@, plot_w as int, plot_h as int),
        plan_complete(r@, img@, plot_w as int, plot_h as int),
        plan_sorted(r@),
{
    let mut r: Vec<PaintOp> = Vec::new();
    let mut y: usize = 0;
    while y < plot_h
        invariant
            raster_wf(img@),
            img@.len() <= 0xFFFF_FFFF,
            img@[0]@.len() <= 0xFFFF_FFFF,
            1 <= plot_w <= 0xFFFF_FFFF,
            1 <= plot_h <= 0xFFFF_FFFF,
            y <= plot_h,
            forall|k: int|
                0 <= k < r@.len() ==> #[trigger] r@[k].dst_x < plot_w && r@[k].dst_y < y
                    && op_matches(r@[k], img@, plot_w as int, plot_h as int),
            forall|xx: int, yy: int|
                0 <= xx < plot_w && 0 <= yy < y && composite_pixel_spec(
                    img@,
                    xx,
                    yy,
                    plot_w as int,
                    plot_h as int,
                ) is Some ==> exists|k: int|
                    0 <= k < r@.len() && #[trigger] r@[k].dst_x == xx && r@[k].dst_y == yy,
            forall|k1: int, k2: int|
                0 <= k1 < k2 < r@.len() ==> #[trigger] r@[k1].dst_y < #[trigger] r@[k2].dst_y
                    || (r@[k1].dst_y == r@[k2].dst_y && r@[k1].dst_x < r@[k2].dst_x),
        decreases plot_h - y,
    {
        let mut x: usize = 0;
        while x < plot_w
            invariant
                raster_wf(img@),
                img@.len() <= 0xFFFF_FFFF,
                img@[0]@.len() <= 0xFFFF_FFFF,
                1 <= plot_w <= 0xFFFF_FFFF,
                1 <= plot_h <= 0xFFFF_FFFF,
                y < plot_h,
                x <= plot_w,
                forall|k: int|
                    0 <= k < r@.len() ==> #[trigger] r@[k].dst_x < plot_w && (r@[k].dst_y < y
                        || (r@[k].dst_y == y && r@[k].dst_x < x)) && op_matches(
                        r@[k],
                        img@,
                        plot_w as int,
                        plot_h as int,
                    ),
                forall|xx: int, yy: int|
                    0 <= xx < plot_w && 0 <= yy < plot_h && (yy < y || (yy == y && xx < x))
                        && composite_pixel_spec(
                        img@,
                        xx,
                        yy,
                        plot_w as int,
                        plot_h as int,
                    ) is Some ==> exists|k: int|
                        0 <= k < r@.len() && #[trigger] r@[k].dst_x == xx && r@[k].dst_y == yy,
                forall|k1: int, k2: int|
                    0 <= k1 < k2 < r@.len() ==> #[trigger] r@[k1].dst_y < #[trigger] r@[k2].dst_y
                        || (r@[k1].dst_y == r@[k2].dst_y && r@[k1].dst_x < r@[k2].dst_x),
            decreases plot_w - x,
        {
            let ghost prev = r@;
            let res = composite_pixel(img, x, y, plot_w, plot_h);
            if let Some((red, green, blue)) = res {
                r.push(PaintOp { dst_x: x, dst_y: y, red, green, blue });
            }
            proof {
                assert forall|k1: int, k2: int| 0 <= k1 < k2 < r@.len() implies
                    #[trigger] r@[k1].dst_y < #[trigger] r@[k2].dst_y || (r@[k1].dst_y
                        == r@[k2].dst_y && r@[k1].dst_x < r@[k2].dst_x) by {
                    assert(r@[k1] == prev[k1]);
                    assert(prev[k1].dst_x < plot_w);
                    if k2 < prev.len() {
                        assert(r@[k2] == prev[k2]);
                        assert(prev[k2].dst_x < plot_w);
                    } else {
                        assert(r@[k2].dst_y == y && r@[k2].dst_x == x);
                    }
                }
                assert forall|xx: int, yy: int|
                    0 <= xx < plot_w && 0 <= yy < plot_h && (yy < y || (yy == y && xx < x + 1))
                        && composite_pixel_spec(
                        img@,
                        xx,
                        yy,
                        plot_w as int,
                        plot_h as int,
                    ) is Some implies exists|k: int|
                        0 <= k < r@.len() && #[trigger] r@[k].dst_x == xx && r@[k].dst_y == yy
                by {
                    if yy == y && xx == x {
                        assert(res is Some);
                        assert(r@[r@.len() - 1].dst_x == xx && r@[r@.len() - 1].dst_y == yy);
                    } else {
                        let k = choose|k: int|
                            0 <= k < prev.len() && #[trigger] prev[k].dst_x == xx
                                && prev[k].dst_y == yy;
                        assert(r@[k] == prev[k]);
                        assert(r@[k].dst_x == xx && r@[k].dst_y == yy);
                    }
                }
            }
            x = x + 1;
        }
        y = y + 1;
    }
    r
}

/// Two strictly row-major-sorted plans with the same members are the
/// same sequence.
proof fn lemma_sorted_same_members(a: Seq<PaintOp>, b: Seq<PaintOp>)
    requires
        plan_sorted(a),
        plan_sorted(b),
        forall|op: PaintOp| a.contains(op) <==> b.contains(op),
    ensures
        a == b,
    decreases a.len(),
{
    if a.len() == 0 {
        if b.len() > 0 {
            assert(b.contains(b[0]));
            assert(a.contains(b[0]));
            assert(false);
        }
        assert(a =~= b);
    } else if b.len() == 0 {
        assert(a.contains(a[0]));
        assert(b.contains(a[0]));
        assert(false);
    } else {
        let a0 = a[0];
        let b0 = b[0];
        assert(a.contains(a0));
        assert(b.contains(a0));
        let i = choose|i: int| 0 <= i < b.len() && b[i] == a0;
        assert(b.contains(b0));
        assert(a.contains(b0));
        let j = choose|j: int| 0 <= j < a.len() && a[j] == b0;
        if i > 0 && j > 0 {
            // b0 strictly precedes a0 in b, and a0 strictly precedes b0
            // in a: the lexicographic order cannot have both
            assert(b[0].dst_y < b[i].dst_y || (b[0].dst_y == b[i].dst_y && b[0].dst_x
                < b[i].dst_x));
            assert(a[0].dst_y < a[j].dst_y || (a[0].dst_y == a[j].dst_y && a[0].dst_x
                < a[j].dst_x));
            assert(false);
        }
        assert(a0 == b0);
        let at = a.subrange(1, a.len() as int);
        let bt = b.subrange(1, b.len() as int);
        assert forall|k1: int, k2: int| 0 <= k1 < k2 < at.len() implies #[trigger] at[k1].dst_y
            < #[trigger] at[k2].dst_y || (at[k1].dst_y == at[k2].dst_y && at[k1].dst_x
            < at[k2].dst_x) by {
            assert(at[k1] == a[k1 + 1] && at[k2] == a[k2 + 1]);
            assert(a[k1 + 1].dst_y < a[k2 + 1].dst_y || (a[k1 + 1].dst_y == a[k2 + 1].dst_y && a[
            k1 + 1].dst_x < a[k2 + 1].dst_x));
        }
        assert forall|k1: int, k2: int| 0 <= k1 < k2 < bt.len() implies #[trigger] bt[k1].dst_y
            < #[trigger] bt[k2].dst_y || (bt[k1].dst_y == bt[k2].dst_y && bt[k1].dst_x
            < bt[k2].dst_x) by {
            assert(bt[k1] == b[k1 + 1] && bt[k2] == b[k2 + 1]);
            assert(b[k1 + 1].dst_y < b[k2 + 1].dst_y || (b[k1 + 1].dst_y == b[k2 + 1].dst_y && b[
            k1 + 1].dst_x < b[k2 + 1].dst_x));
        }
        assert forall|op: PaintOp| at.contains(op) implies bt.contains(op) by {
            let k = choose|k: int| 0 <= k < at.len() && at[k] == op;
            assert(a[k + 1] == op);
            assert(a.contains(op));
            assert(b.contains(op));
            let m = choose|m: int| 0 <= m < b.len() && b[m] == op;
            if m == 0 {
                // op would equal the shared head, yet it sits strictly
                // after the head of a
                assert(a[0].dst_y < a[k + 1].dst_y || (a[0].dst_y == a[k + 1].dst_y && a[0].dst_x
                    < a[k + 1].dst_x));
                assert(false);
            }
            assert(bt[m - 1] == op);
            assert(bt.contains(op));
        }
        assert forall|op: PaintOp| bt.contains(op) implies at.contains(op) by {
            let k = choose|k: int| 0 <= k < bt.len() && bt[k] == op;
            assert(b[k + 1] == op);
            assert(b.contains(op));
            assert(a.contains(op));
            let m = choose|m: int| 0 <= m < a.len() && a[m] == op;
            if m == 0 {
                assert(b[0].dst_y < b[k + 1].dst_y || (b[0].dst_y == b[k + 1].dst_y && b[0].dst_x
                    < b[k + 1].dst_x));
                assert(false);
            }
            assert(at[m - 1] == op);
            assert(at.contains(op));
        }
        lemma_sorted_same_members(at, bt);
        assert(a.len() == b.len());
        assert forall|k: int| 0 <= k < a.len() implies a[k] == b[k] by {
            if k > 0 {
                assert(at[k - 1] == a[k]);
                assert(bt[k - 1] == b[k]);
            }
        }
        assert(a =~= b);
    }
}

/// The compositing contract pins the plan: any two plans that are sound,
/// complete and row-major for the same raster and plot rectangle are the
/// same sequence. Rendering the same fields twice over the same
/// background therefore paints exactly the same pixels.
pub proof fn lemma_composite_plan_unique(
    a: Seq<PaintOp>,
    b: Seq<PaintOp>,
    img: Seq<Vec<Rgba>>,
    plot_w: int,
    plot_h: int,
)
    requires
        plan_sound(a, img, plot_w, plot_h),
        plan_complete(a, img, plot_w, plot_h),
        plan_sorted(a),
        plan_sound(b, img, plot_w, plot_h),
        plan_complete(b, img, plot_w, plot_h),
        plan_sorted(b),
    ensures
        a == b,
{
    assert forall|op: PaintOp| a.contains(op) implies b.contains(op) by {
        let k = choose|k: int| 0 <= k < a.len() && a[k] == op;
        assert(a[k].dst_x < plot_w && a[k].dst_y < plot_h && op_matches(a[k], img, plot_w, plot_h));
        assert(composite_pixel_spec(img, op.dst_x as int, op.dst_y as int, plot_w, plot_h)
            is Some);
        let m = choose|m: int|
            0 <= m < b.len() && #[trigger] b[m].dst_x == op.dst_x && b[m].dst_y == op.dst_y;
        assert(b[m].dst_x < plot_w && b[m].dst_y < plot_h && op_matches(b[m], img, plot_w, plot_h));
        assert(b[m] == op);
        assert(b.contains(op));
    }
    assert forall|op: PaintOp| b.contains(op) implies a.contains(op) by {
        let k = choose|k: int| 0 <= k < b.len() && b[k] == op;
        assert(b[k].dst_x < plot_w && b[k].dst_y < plot_h && op_matches(b[k], img, plot_w, plot_h));
        assert(composite_pixel_spec(img, op.dst_x as int, op.dst_y as int, plot_w, plot_h)
            is Some);
        let m = choose|m: int|
            0 <= m < a.len() && #[trigger] a[m].dst_x == op.dst_x && a[m].dst_y == op.dst_y;
        assert(a[m].dst_x < plot_w && a[m].dst_y < plot_h && op_matches(a[m], img, plot_w, plot_h));
        assert(a[m] == op);
        assert(a.contains(op));
    }
    lemma_sorted_same_members(a, b);
}

/// The axis indices sampled by the renderer with the given stride:
/// `0, step, 2*step, ...`, every multiple of `step` below `n`, in order.
pub fn sample_indices(n: usize, step: usize) -> (r: Vec<usize>)
    requires
        1 <= n <= 1_000_000,
        1 <= step <= 1_000_000,
    ensures
        forall|k: int| 0 <= k < r@.len() ==> #[trigger] r@[k] == k * step,
        forall|k: int| 0 <= k < r@.len() ==> #[trigger] r@[k] < n,
        n <= r@.len() * step,
        r@.len() >= 1,
{
    let mut r: Vec<usize> = Vec::new();
    let mut i: usize = 0;
    proof {
        assert(r@.len() * (step as int) == 0) by (nonlinear_arith)
            requires
                r@.len() == 0,
        ;
    }
    while i < n
        invariant
            1 <= n <= 1_000_000,
            1 <= step <= 1_000_000,
            i as int == r@.len() * (step as int),
            i <= n + step,
            forall|k: int| 0 <= k < r@.len() ==> #[trigger] r@[k] == k * step,
            forall|k: int| 0 <= k < r@.len() ==> #[trigger] r@[k] < n,
        decreases n + step - i,
    {
        r.push(i);
        proof {
            assert(r@.len() * (step as int) == (r@.len() - 1) * (step as int) + (
            step as int)) by (nonlinear_arith);
        }
        i = i + step;
    }
    proof {
        if r@.len() == 0 {
            assert(r@.len() * (step as int) == 0) by (nonlinear_arith)
                requires
                    r@.len() == 0,
            ;
        }
    }
    r
}

/// A vector is drawn only when its speed strictly exceeds 0.1. For a
/// whole-number speed `u` (every zonal wind speed is whole), `u > 0.1`
/// holds exactly when `10 * u > 1`.
pub fn whole_speed_drawn(u: u64) -> (r: bool)
    ensures
        r == (10 * (u as int) > 1),
{
    u >= 1
}

/// A vector counts as high-speed only when its speed strictly exceeds
/// 40; a whole-number speed of exactly 40 does not.
pub fn whole_speed_high(u: u64) -> (r: bool)
    ensures
        r == ((u as int) > 40),
{
    u > 40
}

/// The length scale applied to one sampled vector, in hundredths of a
/// plot unit: the zonal regime boosts high-speed vectors by a factor
/// 1.2, every other case uses the regime's base scale.
pub fn effective_scale_hundredths(regime: RegimeType, high_speed: bool) -> (r: u32)
    ensures
        r == (if regime is Zonal && high_speed {
            scale_hundredths_spec(regime) * 12 / 10
        } else {
            scale_hundredths_spec(regime)
        }),
{
    if matches!(regime, RegimeType::Zonal) && high_speed {
        600
    } else {
        regime.scale_hundredths()
    }
}

/// The arrowhead chevron size, in hundredths of a plot unit: 15% of the
/// regime's base scale.
pub fn arrow_head_hundredths(regime: RegimeType) -> (r: u32)
    ensures
        r == scale_hundredths_spec(regime) * 15 / 100,
{
    regime.scale_hundredths() * 15 / 100
}

} // verus!
