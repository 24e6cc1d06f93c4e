//! Viewport-driven chunk visibility.
//!
//! Given the camera center, the camera scale and the viewport size, computes
//! the set of chunk keys that should be materialized: the chunks overlapping
//! the visible world rectangle, expanded by a streaming margin so that
//! panning does not expose gaps.
//!
//! Lengths and positions are in integer milli-units (one thousandth of a
//! world unit, where a cell is one world unit across); the host converts its
//! floating-point camera state to milli-units at the boundary.

use vstd::prelude::*;

use crate::store::cell_set_insert;
use crate::store::cell_set_model;
use crate::store::new_cell_set;
use crate::store::to_int_pair;
use crate::store::CellSet;

verus! {

/// One chunk side in milli world-units (`chunks::CHUNK_SIZE` cells of one
/// world unit each).
pub const CHUNK_WORLD_MILLI: i64 = 64_000;

/// Largest accepted viewport extent and camera scale, in milli-units.
pub const MAX_VIEW_MILLI: i64 = 1_000_000_000;

/// Largest accepted camera center magnitude, in milli-units.
pub const MAX_CENTER_MILLI: i64 = 1_000_000_000_000_000;

/// Half of the world-space extent covered by a viewport length at a scale:
/// `length * scale / 2`, in milli-units (the two milli factors and the
/// halving combine into a division by 2000).
pub open spec fn half_extent(view_milli: int, scale_milli: int) -> int {
    (view_milli * scale_milli) / 2000
}

/// The chunk index containing a milli-unit position (floor division).
pub open spec fn chunk_floor(v: int) -> int {
    v / (CHUNK_WORLD_MILLI as int)
}

/// The first chunk index past a milli-unit position (ceiling division).
pub open spec fn chunk_ceil(v: int) -> int {
    (v + CHUNK_WORLD_MILLI - 1) / (CHUNK_WORLD_MILLI as int)
}

/// Lowest visible chunk column, with the one-chunk streaming margin.
pub open spec fn visible_min_cx(cx: int, scale: int, vw: int) -> int {
    chunk_floor(cx - half_extent(vw, scale)) - 1
}

/// Highest visible chunk column.
pub open spec fn visible_max_cx(cx: int, scale: int, vw: int) -> int {
    chunk_ceil(cx + half_extent(vw, scale))
}

/// Lowest visible chunk row. World Y grows downward while camera Y grows
/// upward, so the camera's Y extent is negated.
pub open spec fn visible_min_cy(cy: int, scale: int, vh: int) -> int {
    chunk_floor(-(cy + half_extent(vh, scale))) - 1
}

/// Highest visible chunk row.
pub open spec fn visible_max_cy(cy: int, scale: int, vh: int) -> int {
    chunk_ceil(-(cy - half_extent(vh, scale)))
}

/// The chunk keys a camera should have materialized: every key in the
/// inclusive rectangle of visible columns and rows.
pub open spec fn visible_chunk_set(cx: int, cy: int, scale: int, vw: int, vh: int) -> Set<
    (int, int),
> {
    Set::new(
        |k: (int, int)|
            visible_min_cx(cx, scale, vw) <= k.0 <= visible_max_cx(cx, scale, vw)
                && visible_min_cy(cy, scale, vh) <= k.1 <= visible_max_cy(cy, scale, vh),
    )
}

/// Divides a bounded nonnegative product by 2000, rounding down.
fn half_milli(view_milli: i64, scale_milli: i64) -> (r: i64)
    requires
        0 <= view_milli <= MAX_VIEW_MILLI,
        0 <= scale_milli <= MAX_VIEW_MILLI,
    ensures
        r == half_extent(view_milli as int, scale_milli as int),
        0 <= r <= 500_000_000_000_000,
{
    proof {
        assert(0 <= view_milli * scale_milli <= 1_000_000_000_000_000_000) by (nonlinear_arith)
            requires
                0 <= view_milli <= 1_000_000_000,
                0 <= scale_milli <= 1_000_000_000,
        ;
        vstd::arithmetic::div_mod::lemma_div_is_ordered(
            0,
            view_milli * scale_milli,
            2000,
        );
        vstd::arithmetic::div_mod::lemma_div_is_ordered(
            view_milli * scale_milli,
            1_000_000_000_000_000_000,
            2000,
        );
    }
    let product = view_milli * scale_milli;
    match product.checked_div_euclid(2000) {
        Some(q) => q,
        None => {
            assert(false);
            0
        },
    }
}

/// The chunk index containing a bounded milli-unit position.
fn chunk_floor_milli(v: i64) -> (r: i64)
    requires
        -2_000_000_000_000_000 <= v <= 2_000_000_000_000_000,
    ensures
        r == chunk_floor(v as int),
        -31_250_000_000 <= r <= 31_250_000_000,
{
    proof {
        vstd::arithmetic::div_mod::lemma_div_is_ordered(-2_000_000_000_000_000, v as int, 64_000);
        vstd::arithmetic::div_mod::lemma_div_is_ordered(v as int, 2_000_000_000_000_000, 64_000);
    }
    match v.checked_div_euclid(CHUNK_WORLD_MILLI) {
        Some(q) => q,
        None => {
            assert(false);
            0
        },
    }
}

/// The first chunk index past a bounded milli-unit position.
fn chunk_ceil_milli(v: i64) -> (r: i64)
    requires
        -2_000_000_000_000_000 <= v <= 2_000_000_000_000_000,
    ensures
        r == chunk_ceil(v as int),
        -31_250_000_000 <= r <= 31_250_000_001,
{
    proof {
        vstd::arithmetic::div_mod::lemma_div_is_ordered(
            -2_000_000_000_000_000,
            v as int + 63_999,
            64_000,
        );
        vstd::arithmetic::div_mod::lemma_div_is_ordered(
            v as int + 63_999,
            2_000_000_000_000_064_000,
            64_000,
        );
    }
    let shifted = v + (CHUNK_WORLD_MILLI - 1);
    match shifted.checked_div_euclid(CHUNK_WORLD_MILLI) {
        Some(q) => q,
        None => {
            assert(false);
            0
        },
    }
}

/// Computes the set of chunk keys the camera should have materialized:
/// the chunks overlapping the visible world rectangle, expanded by one
/// chunk of margin in every direction.
pub fn visible_chunks(
    center_x_milli: i64,
    center_y_milli: i64,
    camera_scale_milli: i64,
    viewport_w_milli: i64,
    viewport_h_milli: i64,
) -> (r: CellSet)
    requires
        0 <= camera_scale_milli <= MAX_VIEW_MILLI,
        0 <= viewport_w_milli <= MAX_VIEW_MILLI,
        0 <= viewport_h_milli <= MAX_VIEW_MILLI,
        -MAX_CENTER_MILLI <= center_x_milli <= MAX_CENTER_MILLI,
        -MAX_CENTER_MILLI <= center_y_milli <= MAX_CENTER_MILLI,
    ensures
        cell_set_model(r) == visible_chunk_set(
            center_x_milli as int,
            center_y_milli as int,
            camera_scale_milli as int,
            viewport_w_milli as int,
            viewport_h_milli as int,
        ),
{
    let half_w = half_milli(viewport_w_milli, camera_scale_milli);
    let half_h = half_milli(viewport_h_milli, camera_scale_milli);
    let min_cx = chunk_floor_milli(center_x_milli - half_w) - 1;
    let max_cx = chunk_ceil_milli(center_x_milli + half_w);
    let min_cy = chunk_floor_milli(-(center_y_milli + half_h)) - 1;
    let max_cy = chunk_ceil_milli(-(center_y_milli - half_h));
    proof {
        vstd::arithmetic::div_mod::lemma_div_is_ordered(
            center_x_milli - half_w,
            center_x_milli + half_w + 63_999,
            64_000,
        );
        vstd::arithmetic::div_mod::lemma_div_is_ordered(
            -(center_y_milli + half_h),
            -(center_y_milli - half_h) + 63_999,
            64_000,
        );
    }
    let ghost target = visible_chunk_set(
        center_x_milli as int,
        center_y_milli as int,
        camera_scale_milli as int,
        viewport_w_milli as int,
        viewport_h_milli as int,
    );
    let mut out = new_cell_set();
    let mut cy = min_cy;
    while cy <= max_cy
        invariant
            min_cy <= cy <= max_cy + 1,
            min_cx as int == visible_min_cx(
                center_x_milli as int,
                camera_scale_milli as int,
                viewport_w_milli as int,
            ),
            max_cx as int == visible_max_cx(
                center_x_milli as int,
                camera_scale_milli as int,
                viewport_w_milli as int,
            ),
            min_cy as int == visible_min_cy(
                center_y_milli as int,
                camera_scale_milli as int,
                viewport_h_milli as int,
            ),
            max_cy as int == visible_max_cy(
                center_y_milli as int,
                camera_scale_milli as int,
                viewport_h_milli as int,
            ),
            -31_250_000_001 <= min_cx <= 31_250_000_001,
            -31_250_000_001 <= max_cx <= 31_250_000_001,
            -31_250_000_001 <= max_cy <= 31_250_000_001,
            min_cx <= max_cx + 1,
            target == visible_chunk_set(
                center_x_milli as int,
                center_y_milli as int,
                camera_scale_milli as int,
                viewport_w_milli as int,
                viewport_h_milli as int,
            ),
            forall|k: (int, int)| #[trigger]
                cell_set_model(out).contains(k) <==> (target.contains(k) && k.1 < cy as int),
        decreases max_cy + 1 - cy,
    {
        let mut cx = min_cx;
        while cx <= max_cx
            invariant
                min_cx <= cx <= max_cx + 1,
                min_cy <= cy <= max_cy,
                min_cx as int == visible_min_cx(
                    center_x_milli as int,
                    camera_scale_milli as int,
                    viewport_w_milli as int,
                ),
                max_cx as int == visible_max_cx(
                    center_x_milli as int,
                    camera_scale_milli as int,
                    viewport_w_milli as int,
                ),
                min_cy as int == visible_min_cy(
                    center_y_milli as int,
                    camera_scale_milli as int,
                    viewport_h_milli as int,
                ),
                max_cy as int == visible_max_cy(
                    center_y_milli as int,
                    camera_scale_milli as int,
                    viewport_h_milli as int,
                ),
                -31_250_000_001 <= min_cx <= 31_250_000_001,
                -31_250_000_001 <= max_cx <= 31_250_000_001,
                min_cx <= max_cx + 1,
                target == visible_chunk_set(
                    center_x_milli as int,
                    center_y_milli as int,
                    camera_scale_milli as int,
                    viewport_w_milli as int,
                    viewport_h_milli as int,
                ),
                forall|k: (int, int)| #[trigger]
                    cell_set_model(out).contains(k) <==> (target.contains(k) && (k.1 < cy as int || (
                    k.1 == cy as int && k.0 < cx as int))),
            decreases max_cx + 1 - cx,
        {
            cell_set_insert(&mut out, (cx, cy));
            proof {
                assert(to_int_pair((cx, cy)) == (cx as int, cy as int));
                assert(target.contains((cx as int, cy as int)));
            }
            cx += 1;
        }
        cy += 1;
    }
    proof {
        assert(cell_set_model(out) =~= target);
    }
    out
}

/// Zooming out strictly enlarges (or keeps) the visible chunk set: with the
/// same center and viewport, a larger camera scale yields a superset.
pub proof fn lemma_visible_chunks_monotone(
    cx: int,
    cy: int,
    scale1: int,
    scale2: int,
    vw: int,
    vh: int,
)
    requires
        0 <= scale1 <= scale2,
        0 <= vw,
        0 <= vh,
    ensures
        visible_chunk_set(cx, cy, scale1, vw, vh).subset_of(
            visible_chunk_set(cx, cy, scale2, vw, vh),
        ),
{
    assert(vw * scale1 <= vw * scale2) by (nonlinear_arith)
        requires
            0 <= scale1 <= scale2,
            0 <= vw,
    ;
    assert(vh * scale1 <= vh * scale2) by (nonlinear_arith)
        requires
            0 <= scale1 <= scale2,
            0 <= vh,
    ;
    vstd::arithmetic::div_mod::lemma_div_is_ordered(vw * scale1, vw * scale2, 2000);
    vstd::arithmetic::div_mod::lemma_div_is_ordered(vh * scale1, vh * scale2, 2000);
    let h1w = half_extent(vw, scale1);
    let h2w = half_extent(vw, scale2);
    let h1h = half_extent(vh, scale1);
    let h2h = half_extent(vh, scale2);
    vstd::arithmetic::div_mod::lemma_div_is_ordered(cx - h2w, cx - h1w, 64_000);
    vstd::arithmetic::div_mod::lemma_div_is_ordered(
        cx + h1w + 63_999,
        cx + h2w + 63_999,
        64_000,
    );
    vstd::arithmetic::div_mod::lemma_div_is_ordered(
        -(cy + h2h),
        -(cy + h1h),
        64_000,
    );
    vstd::arithmetic::div_mod::lemma_div_is_ordered(
        -(cy - h1h) + 63_999,
        -(cy - h2h) + 63_999,
        64_000,
    );
    assert forall|k: (int, int)| #[trigger]
        visible_chunk_set(cx, cy, scale1, vw, vh).contains(k) implies visible_chunk_set(
        cx,
        cy,
        scale2,
        vw,
        vh,
    ).contains(k) by {}
}

} // verus!
